use vstd::prelude::*;

verus! {

/// One sample line: the metric name as written, the text between its label
/// braces, and its value as written.
pub struct Sample {
    pub name: String,
    pub labels: String,
    pub value: String,
}

/// What a sample stands for in contracts.
pub struct SampleView {
    pub name: Seq<char>,
    pub labels: Seq<char>,
    pub value: Seq<char>,
}

impl View for Sample {
    type V = SampleView;

    open spec fn view(&self) -> SampleView {
        SampleView { name: self.name@, labels: self.labels@, value: self.value@ }
    }
}

/// A metric family: its name, declared type, help text and samples in the
/// order in which they were read.
pub struct MetricFamily {
    pub name: String,
    pub kind: String,
    pub help: String,
    pub samples: Vec<Sample>,
}

/// What a family stands for in contracts.
pub struct FamilyView {
    pub name: Seq<char>,
    pub kind: Seq<char>,
    pub help: Seq<char>,
    pub samples: Seq<SampleView>,
}

impl View for MetricFamily {
    type V = FamilyView;

    open spec fn view(&self) -> FamilyView {
        FamilyView {
            name: self.name@,
            kind: self.kind@,
            help: self.help@,
            samples: self.samples@.map_values(|s: Sample| s@),
        }
    }
}

/// The families of one document, in the order of their first appearance.
pub struct Document {
    pub families: Vec<MetricFamily>,
}

impl View for Document {
    type V = Seq<FamilyView>;

    open spec fn view(&self) -> Seq<FamilyView> {
        self.families@.map_values(|f: MetricFamily| f@)
    }
}

/// Why a document was refused: a reason, and the offending line where one
/// line is to blame.
pub struct ParseError {
    pub reason: String,
    pub line: Option<String>,
}

} // verus!
