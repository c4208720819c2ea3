//! Board variables: named, dynamically resolved pieces of text.
use vstd::prelude::*;
use crate::text::same_text;

verus! {

/// A substring rule: an absolute start offset in characters, and an end that is
/// `0` for "to the end", negative for "that many before the end", or positive
/// for an absolute offset clamped to the length.
pub type Substring = Option<(u8, i16)>;

/// What a clock variable shows.
#[derive(Clone, Copy, Debug)]
pub enum TimeData {
    /// The day of the week, shifted by a number of days, with a substring rule.
    Weekday(u8, Substring),
    /// `HH:MM AM`.
    Time,
    /// `Mon D YYYY`.
    Date,
}

/// A variable definition.
#[derive(Clone, Debug)]
pub enum BoardVariable {
    /// An HTTP GET: id, URL, expiry in seconds, and request headers.
    URL(u32, String, i64, Vec<(String, String)>),
    /// A value picked out of the JSON body of the URL variable with the given
    /// id: the id, a dot-separated path, whether to round numbers, and a
    /// substring rule.
    JsonURL(u32, String, bool, Substring),
    /// A value of the wall clock.
    Time(TimeData),
}

pub open spec fn variable_type_label(i: int) -> Seq<char> {
    if i == 0 {
        "HTTP Request"@
    } else if i == 1 {
        "URL JSON Value Extractor"@
    } else {
        "DateTime"@
    }
}

pub open spec fn variable_kind(v: BoardVariable) -> int {
    match v {
        BoardVariable::URL(..) => 0,
        BoardVariable::JsonURL(..) => 1,
        BoardVariable::Time(_) => 2,
    }
}

/// Relies on `rand::random`: a fresh identifier; nothing is known of its value.
#[verifier::external_body]
pub(crate) fn fresh_id() -> (r: u32) {
    rand::random::<u32>()
}

/// The URL that new request variables start from.
pub open spec fn default_url() -> Seq<char> {
    "https://jsonplaceholder.typicode.com/todos/"@
}

/// The JSON path that new extractor variables start from.
pub open spec fn default_json_path() -> Seq<char> {
    "0.title"@
}

impl BoardVariable {
    /// The labels of the three kinds of variable, in order.
    pub fn get_all_variable_types() -> (r: Vec<String>)
        ensures
            r@.len() == 3,
            forall|i: int| 0 <= i < 3 ==> #[trigger] r@[i]@ == variable_type_label(i),
    {
        let mut v: Vec<String> = Vec::new();
        v.push("HTTP Request".to_owned());
        v.push("URL JSON Value Extractor".to_owned());
        v.push("DateTime".to_owned());
        v
    }

    /// The label of this variable's kind.
    pub fn get_variable_type(&self) -> (r: String)
        ensures
            r@ == variable_type_label(variable_kind(*self)),
    {
        match self {
            BoardVariable::URL(..) => "HTTP Request".to_owned(),
            BoardVariable::JsonURL(..) => "URL JSON Value Extractor".to_owned(),
            BoardVariable::Time(_) => "DateTime".to_owned(),
        }
    }

    /// A new variable of the kind that `var_type` names, with identifier `id`;
    /// an unknown label gives a clock variable showing the time.
    pub fn default_with_id(var_type: &str, id: u32) -> (r: BoardVariable)
        ensures
            var_type@ == variable_type_label(0) ==> match r {
                BoardVariable::URL(i, url, expiry, headers) => i == id && url@ == default_url()
                    && expiry == 30 && headers@.len() == 0,
                _ => false,
            },
            var_type@ == variable_type_label(1) ==> match r {
                BoardVariable::JsonURL(i, path, round, sub) => i == id && path@ == default_json_path()
                    && !round && sub is None,
                _ => false,
            },
            var_type@ != variable_type_label(0) && var_type@ != variable_type_label(1) ==> r
                == BoardVariable::Time(TimeData::Time),
    {
        proof {
            reveal_strlit("HTTP Request");
            reveal_strlit("URL JSON Value Extractor");
            assert(variable_type_label(0).len() != variable_type_label(1).len());
        }
        if same_text(var_type, "HTTP Request") {
            BoardVariable::URL(id, "https://jsonplaceholder.typicode.com/todos/".to_owned(), 30, Vec::new())
        } else if same_text(var_type, "URL JSON Value Extractor") {
            BoardVariable::JsonURL(id, "0.title".to_owned(), false, None)
        } else {
            BoardVariable::Time(TimeData::Time)
        }
    }

    /// A new variable of the kind that `var_type` names, with a fresh random
    /// identifier.
    pub fn get_default_by_type(var_type: &str) -> (r: BoardVariable)
        ensures
            var_type@ == variable_type_label(0) ==> match r {
                BoardVariable::URL(_, url, expiry, headers) => url@ == default_url() && expiry == 30
                    && headers@.len() == 0,
                _ => false,
            },
            var_type@ == variable_type_label(1) ==> match r {
                BoardVariable::JsonURL(_, path, round, sub) => path@ == default_json_path() && !round
                    && sub is None,
                _ => false,
            },
            var_type@ != variable_type_label(0) && var_type@ != variable_type_label(1) ==> r
                == BoardVariable::Time(TimeData::Time),
    {
        let id = fresh_id();
        BoardVariable::default_with_id(var_type, id)
    }

    /// The URL of this variable if it is a request variable with identifier
    /// `check_id`.
    pub fn get_url_if_id_matches_or_none(&self, check_id: &u32) -> (r: Option<String>)
        ensures
            match *self {
                BoardVariable::URL(id, url, _, _) => if id == *check_id {
                    r is Some && r->0@ == url@
                } else {
                    r is None
                },
                _ => r is None,
            },
    {
        match self {
            BoardVariable::URL(id, url, _, _) => {
                if *id == *check_id {
                    Some(url.clone())
                } else {
                    None
                }
            },
            _ => None,
        }
    }
}

pub open spec fn time_data_label(i: int) -> Seq<char> {
    if i == 0 {
        "Weekday"@
    } else if i == 1 {
        "Time"@
    } else {
        "Date"@
    }
}

pub open spec fn time_data_kind(t: TimeData) -> int {
    match t {
        TimeData::Weekday(..) => 0,
        TimeData::Time => 1,
        TimeData::Date => 2,
    }
}

impl TimeData {
    /// The labels of the three clock kinds, in order.
    pub fn get_all_time_data_types() -> (r: Vec<String>)
        ensures
            r@.len() == 3,
            forall|i: int| 0 <= i < 3 ==> #[trigger] r@[i]@ == time_data_label(i),
    {
        let mut v: Vec<String> = Vec::new();
        v.push(TimeData::Weekday(0, None).to_string());
        v.push(TimeData::Time.to_string());
        v.push(TimeData::Date.to_string());
        v
    }

    /// The label of this clock kind.
    pub fn to_string(&self) -> (r: String)
        ensures
            r@ == time_data_label(time_data_kind(*self)),
    {
        match self {
            TimeData::Weekday(..) => "Weekday".to_owned(),
            TimeData::Time => "Time".to_owned(),
            TimeData::Date => "Date".to_owned(),
        }
    }

    /// The clock kind a label names; an unknown label gives the time.
    pub fn from_str(s: &str) -> (r: TimeData)
        ensures
            s@ == time_data_label(0) ==> r == TimeData::Weekday(0, None),
            s@ == time_data_label(2) ==> r == TimeData::Date,
            s@ != time_data_label(0) && s@ != time_data_label(2) ==> r == TimeData::Time,
    {
        proof {
            reveal_strlit("Weekday");
            reveal_strlit("Date");
            assert(time_data_label(0).len() != time_data_label(2).len());
        }
        if same_text(s, "Weekday") {
            TimeData::Weekday(0, None)
        } else if same_text(s, "Date") {
            TimeData::Date
        } else {
            TimeData::Time
        }
    }
}

} // verus!
