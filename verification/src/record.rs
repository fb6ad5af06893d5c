//! The records a search emits: a match line or a context line.

use vstd::prelude::*;

verus! {

/// The path of the file a record belongs to.
#[derive(Debug)]
pub struct RgJsonPath {
    pub text: String,
}

/// The text shown for a line, after truncation.
#[derive(Debug)]
pub struct RgJsonLines {
    pub text: Vec<u8>,
}

/// The bytes that a match covers.
#[derive(Debug)]
pub struct RgJsonMatchData {
    pub text: Vec<u8>,
}

/// One match inside a line: the matched bytes and their offsets in the
/// line's untruncated text.
#[derive(Debug)]
pub struct RgJsonSubmatch {
    pub match_data: RgJsonMatchData,
    pub start: usize,
    pub end: usize,
}

/// The payload of a match record.
#[derive(Debug)]
pub struct RgJsonData {
    pub path: RgJsonPath,
    pub lines: RgJsonLines,
    pub line_number: u64,
    pub absolute_offset: u64,
    pub submatches: Vec<RgJsonSubmatch>,
}

/// The payload of a context record.
#[derive(Debug)]
pub struct RgJsonContextData {
    pub path: RgJsonPath,
    pub lines: RgJsonLines,
    pub line_number: u64,
    pub absolute_offset: u64,
}

/// A record for a line that holds a match.
#[derive(Debug)]
pub struct RgJsonMatch {
    pub entry_type: String,
    pub data: RgJsonData,
}

/// A record for a line shown only because it is near a match.
#[derive(Debug)]
pub struct RgJsonContext {
    pub entry_type: String,
    pub data: RgJsonContextData,
}

/// A record: either a match or a context line.
#[derive(Debug)]
pub enum SearchResultType {
    Match(RgJsonMatch),
    Context(RgJsonContext),
}

/// One match inside a line, over mathematical values.
pub struct SubmatchModel {
    pub text: Seq<u8>,
    pub start: int,
    pub end: int,
}

/// A record over mathematical values.
pub enum RecordModel {
    Match {
        entry_type: Seq<char>,
        path: Seq<char>,
        text: Seq<u8>,
        line_number: int,
        absolute_offset: int,
        submatches: Seq<SubmatchModel>,
    },
    Context {
        entry_type: Seq<char>,
        path: Seq<char>,
        text: Seq<u8>,
        line_number: int,
        absolute_offset: int,
    },
}

/// The match record of a line: tagged "match", with one submatch, and with
/// the absolute offset left at zero.
pub open spec fn match_record(
    path: Seq<char>,
    text: Seq<u8>,
    line_number: int,
    matched: Seq<u8>,
    start: int,
    end: int,
) -> RecordModel {
    RecordModel::Match {
        entry_type: "match"@,
        path,
        text,
        line_number,
        absolute_offset: 0,
        submatches: seq![SubmatchModel { text: matched, start, end }],
    }
}

/// The context record of a line: tagged "context", with the absolute offset
/// left at zero.
pub open spec fn context_record(path: Seq<char>, text: Seq<u8>, line_number: int) -> RecordModel {
    RecordModel::Context { entry_type: "context"@, path, text, line_number, absolute_offset: 0 }
}

impl View for RgJsonSubmatch {
    type V = SubmatchModel;

    open spec fn view(&self) -> SubmatchModel {
        SubmatchModel {
            text: self.match_data.text@,
            start: self.start as int,
            end: self.end as int,
        }
    }
}

impl View for RgJsonMatch {
    type V = RecordModel;

    open spec fn view(&self) -> RecordModel {
        RecordModel::Match {
            entry_type: self.entry_type@,
            path: self.data.path.text@,
            text: self.data.lines.text@,
            line_number: self.data.line_number as int,
            absolute_offset: self.data.absolute_offset as int,
            submatches: Seq::new(
                self.data.submatches@.len(),
                |k: int| self.data.submatches@[k]@,
            ),
        }
    }
}

impl View for RgJsonContext {
    type V = RecordModel;

    open spec fn view(&self) -> RecordModel {
        RecordModel::Context {
            entry_type: self.entry_type@,
            path: self.data.path.text@,
            text: self.data.lines.text@,
            line_number: self.data.line_number as int,
            absolute_offset: self.data.absolute_offset as int,
        }
    }
}

impl View for SearchResultType {
    type V = RecordModel;

    open spec fn view(&self) -> RecordModel {
        match self {
            SearchResultType::Match(m) => m@,
            SearchResultType::Context(c) => c@,
        }
    }
}

/// The records held in `records`, each as its model.
pub open spec fn records_view(records: Seq<SearchResultType>) -> Seq<RecordModel> {
    Seq::new(records.len(), |k: int| records[k]@)
}

/// Whether one of the records is a match.
pub open spec fn has_match(records: Seq<RecordModel>) -> bool {
    exists|k: int| 0 <= k < records.len() && #[trigger] records[k] is Match
}

impl RgJsonMatch {
    /// Makes the match record of a line.
    pub fn new(
        path: &str,
        text: Vec<u8>,
        line_number: u64,
        matched: Vec<u8>,
        start: usize,
        end: usize,
    ) -> (record: RgJsonMatch)
        ensures
            record@ == match_record(
                path@,
                text@,
                line_number as int,
                matched@,
                start as int,
                end as int,
            ),
    {
        let submatch = RgJsonSubmatch { match_data: RgJsonMatchData { text: matched }, start, end };
        let mut submatches: Vec<RgJsonSubmatch> = Vec::new();
        submatches.push(submatch);
        let record = RgJsonMatch {
            entry_type: "match".to_owned(),
            data: RgJsonData {
                path: RgJsonPath { text: path.to_owned() },
                lines: RgJsonLines { text },
                line_number,
                absolute_offset: 0,
                submatches,
            },
        };
        assert(record@->Match_submatches == seq![
            SubmatchModel { text: matched@, start: start as int, end: end as int },
        ]);
        record
    }
}

impl RgJsonContext {
    /// Makes the context record of a line.
    pub fn new(path: &str, text: Vec<u8>, line_number: u64) -> (record: RgJsonContext)
        ensures
            record@ == context_record(path@, text@, line_number as int),
    {
        RgJsonContext {
            entry_type: "context".to_owned(),
            data: RgJsonContextData {
                path: RgJsonPath { text: path.to_owned() },
                lines: RgJsonLines { text },
                line_number,
                absolute_offset: 0,
            },
        }
    }
}

/// The line number that a record carries.
pub open spec fn line_number_of(record: RecordModel) -> int {
    match record {
        RecordModel::Match { line_number, .. } => line_number,
        RecordModel::Context { line_number, .. } => line_number,
    }
}

/// Whether one of the records is a match.
pub fn any_match(records: &Vec<SearchResultType>) -> (found: bool)
    ensures
        found == has_match(records_view(records@)),
{
    let mut i: usize = 0;
    while i < records.len()
        invariant
            i <= records@.len(),
            forall|k: int| 0 <= k < i ==> !(#[trigger] records_view(records@)[k] is Match),
        decreases records@.len() - i,
    {
        if records[i].is_match() {
            assert(records_view(records@)[i as int] is Match);
            return true;
        }
        i += 1;
    }
    false
}

impl SearchResultType {
    /// Whether this record is a match.
    pub fn is_match(&self) -> (yes: bool)
        ensures
            yes == (self@ is Match),
    {
        match self {
            SearchResultType::Match(_) => true,
            SearchResultType::Context(_) => false,
        }
    }
}

} // verus!
