//! Records and the immutable, non-empty store that holds them, built from
//! the rows of a delimited text source.
use vstd::prelude::*;

verus! {

/// A servable record: the text, its attribution, and optionally the work it
/// comes from and the character it is attributed to within that work.
#[derive(Clone, Debug, PartialEq, Eq)]
pub struct Fortune {
    pub fortune: String,
    pub attribution: String,
    pub work: Option<String>,
    pub character_attribution: Option<String>,
}

/// Why a record store could not be built.
#[derive(Clone, Copy, Debug, PartialEq, Eq)]
pub enum LoadError {
    /// The source holds no record.
    Empty,
    /// The row at this index (0-based, among the data rows) lacks the text
    /// or the attribution, or leaves one of them blank.
    MissingField { row: usize },
    /// The source is not well-formed delimited text.
    Malformed,
}

/// The characters of a string with leading and trailing whitespace removed.
pub uninterp spec fn trim_of(s: Seq<char>) -> Seq<char>;

/// Relies on `str::trim`: the result depends on the characters alone.
#[verifier::external_body]
fn trim(s: &str) -> (r: String)
    ensures
        r@ == trim_of(s@),
{
    s.trim().to_string()
}

/// The data rows of a delimited source (first row a header, `#` starting a
/// comment row, rows of any length), or `None` where it is not well-formed.
pub uninterp spec fn csv_rows(data: Seq<u8>) -> Option<Seq<Seq<Seq<char>>>>;

/// What a row of fields holds, as character sequences.
pub open spec fn rows_view(rows: Seq<Vec<String>>) -> Seq<Seq<Seq<char>>> {
    Seq::new(rows.len(), |i: int| fields_view(rows[i]@))
}

pub open spec fn fields_view(fields: Seq<String>) -> Seq<Seq<char>> {
    Seq::new(fields.len(), |j: int| fields[j]@)
}

/// Relies on the csv crate's `ReaderBuilder` and `StringRecord`: reads every
/// data row of `data` with a header row, `#` comments and flexible row lengths.
#[verifier::external_body]
fn read_csv_rows(data: &[u8]) -> (r: Result<Vec<Vec<String>>, csv::Error>)
    ensures
        match r {
            Ok(rows) => csv_rows(data@) == Some(rows_view(rows@)),
            Err(_) => csv_rows(data@) is None,
        },
{
    csv::ReaderBuilder::new()
        .comment(Some(b'#'))
        .flexible(true)
        .has_headers(true)
        .from_reader(data)
        .records()
        .map(|rec| rec.map(|rec| rec.iter().map(|f| f.to_string()).collect()))
        .collect()
}

#[verifier::external_type_specification]
#[verifier::external_body]
pub struct ExCsvError(csv::Error);

/// The value of an optional field: its trimmed text, absent where the
/// column is missing or blank.
pub open spec fn optional_field(fields: Seq<Seq<char>>, i: int) -> Option<Seq<char>> {
    if i < fields.len() && trim_of(fields[i]).len() > 0 {
        Some(trim_of(fields[i]))
    } else {
        None
    }
}

/// A row can be a record: it has a text and an attribution that are not blank.
pub open spec fn row_ok(fields: Seq<Seq<char>>) -> bool {
    &&& fields.len() >= 2
    &&& trim_of(fields[0]).len() > 0
    &&& trim_of(fields[1]).len() > 0
}

pub open spec fn opt_view(o: Option<String>) -> Option<Seq<char>> {
    match o {
        Some(s) => Some(s@),
        None => None,
    }
}

impl Fortune {
    /// The record is the one that the row `fields` describes.
    pub open spec fn of_row(self, fields: Seq<Seq<char>>) -> bool {
        &&& self.fortune@ == trim_of(fields[0])
        &&& self.attribution@ == trim_of(fields[1])
        &&& opt_view(self.work) == optional_field(fields, 2)
        &&& opt_view(self.character_attribution) == optional_field(fields, 3)
    }

    /// Builds a record from a row: text, attribution, work, character
    /// attribution, each trimmed. A blank or missing optional field is
    /// absent; fields past the fourth are ignored.
    pub fn from_fields(fields: &Vec<String>) -> (r: Option<Fortune>)
        ensures
            r is Some <==> row_ok(fields_view(fields@)),
            r matches Some(f) ==> f.of_row(fields_view(fields@)),
    {
        let ghost v = fields_view(fields@);
        if fields.len() < 2 {
            return None;
        }
        let fortune = trim(fields[0].as_str());
        let attribution = trim(fields[1].as_str());
        if fortune.as_str().is_empty() || attribution.as_str().is_empty() {
            return None;
        }
        let work = Self::optional(fields, 2);
        let character_attribution = Self::optional(fields, 3);
        Some(Fortune { fortune, attribution, work, character_attribution })
    }

    fn optional(fields: &Vec<String>, i: usize) -> (r: Option<String>)
        ensures
            opt_view(r) == optional_field(fields_view(fields@), i as int),
    {
        if i < fields.len() {
            let t = trim(fields[i].as_str());
            if t.as_str().is_empty() {
                None
            } else {
                Some(t)
            }
        } else {
            None
        }
    }
}


/// The records of a source, in order; never empty, never changed once built.
pub struct FortuneStore {
    records: Vec<Fortune>,
}

impl View for FortuneStore {
    type V = Seq<Fortune>;

    closed spec fn view(&self) -> Seq<Fortune> {
        self.records@
    }
}

/// What building a store from the rows `v` gives: no rows is `Empty`; else
/// the first row that cannot be a record is reported by its index; else
/// the store holds one record per row, in order.
pub open spec fn built_from(r: Result<FortuneStore, LoadError>, v: Seq<Seq<Seq<char>>>) -> bool {
    if v.len() == 0 {
        r == Err::<FortuneStore, LoadError>(LoadError::Empty)
    } else if exists|i: int| 0 <= i < v.len() && !row_ok(#[trigger] v[i]) {
        r matches Err(LoadError::MissingField { row }) && row < v.len() && !row_ok(v[row as int])
            && forall|j: int| 0 <= j < row ==> row_ok(#[trigger] v[j])
    } else {
        r matches Ok(s) && s@.len() == v.len() && forall|i: int|
            0 <= i < v.len() ==> (#[trigger] s@[i]).of_row(v[i])
    }
}

impl FortuneStore {
    #[verifier::type_invariant]
    spec fn inv(&self) -> bool {
        self.records.len() > 0
    }

    /// A store of `records`; an empty sequence is refused.
    pub fn new(records: Vec<Fortune>) -> (r: Result<FortuneStore, LoadError>)
        ensures
            records@.len() == 0 <==> r is Err,
            r matches Err(e) ==> e == LoadError::Empty,
            r matches Ok(s) ==> s@ == records@,
    {
        if records.len() == 0 {
            Err(LoadError::Empty)
        } else {
            Ok(FortuneStore { records })
        }
    }

    /// The number of records, which is at least one.
    pub fn len(&self) -> (r: usize)
        ensures
            r == self@.len(),
            r > 0,
    {
        proof {
            use_type_invariant(self);
        }
        self.records.len()
    }

    /// The record at index `i`.
    pub fn get(&self, i: usize) -> (r: &Fortune)
        requires
            i < self@.len(),
        ensures
            *r == self@[i as int],
    {
        &self.records[i]
    }

    /// Builds a store with one record per row of `rows`.
    pub fn from_rows(rows: &Vec<Vec<String>>) -> (r: Result<FortuneStore, LoadError>)
        ensures
            built_from(r, rows_view(rows@)),
    {
        let ghost v = rows_view(rows@);
        let mut out: Vec<Fortune> = Vec::new();
        let mut i: usize = 0;
        while i < rows.len()
            invariant
                v == rows_view(rows@),
                i <= rows@.len(),
                out@.len() == i,
                forall|j: int| 0 <= j < i ==> row_ok(#[trigger] v[j]) && out@[j].of_row(v[j]),
            decreases rows@.len() - i,
        {
            match Fortune::from_fields(&rows[i]) {
                Some(f) => {
                    out.push(f);
                },
                None => {
                    assert(!row_ok(v[i as int]));
                    return Err(LoadError::MissingField { row: i });
                },
            }
            i += 1;
        }
        let r = FortuneStore::new(out);
        proof {
            if v.len() > 0 {
                assert(forall|k: int| 0 <= k < v.len() ==> row_ok(#[trigger] v[k]));
            }
        }
        r
    }

    /// Reads a store from delimited text: a header row, then one row per
    /// record (text, attribution, optional work, optional character
    /// attribution); rows starting with `#` are skipped.
    pub fn load(data: &[u8]) -> (r: Result<FortuneStore, LoadError>)
        ensures
            match csv_rows(data@) {
                None => r == Err::<FortuneStore, LoadError>(LoadError::Malformed),
                Some(v) => built_from(r, v),
            },
    {
        match read_csv_rows(data) {
            Ok(rows) => FortuneStore::from_rows(&rows),
            Err(_) => Err(LoadError::Malformed),
        }
    }
}

} // verus!
