//! Region decoder: deserializes the text of a just-closed region against
//! that region's schema — the head object, one result row, or the trailing
//! metadata object.
//!
//! Each schema is a spec-level grammar function over the region's
//! characters; the executable decoder of a region returns exactly what the
//! grammar function denotes.  Fields that the schema does not know are
//! ignored when their value is a string, an unsigned integer, or an array
//! of those.

use vstd::prelude::*;

use crate::json::{
    p_string, p_uint, scan_string, scan_uint, skim_value, skip_value, skip_ws, ws_end,
};
use crate::sparql::{
    row_insert, row_keys_distinct, Binding, Head, Header, Meta, RDFValue, RowModel, TermModel,
};

verus! {

/// The fields of a term object collected so far.
#[verifier::ext_equal]
pub struct TermFields {
    pub ty: Option<Seq<char>>,
    pub value: Option<Seq<char>>,
    pub lang: Option<Seq<char>>,
    pub datatype: Option<Seq<char>>,
}

/// The value of one term-object field named `k`: the known fields take a
/// string and may not repeat; an unknown field is skipped.
pub open spec fn term_field_value(s: Seq<char>, i: int, acc: TermFields, k: Seq<char>) -> Option<
    (TermFields, int),
> {
    if k == "type"@ {
        match p_string(s, i) {
            Some((v, j)) => if acc.ty is Some {
                None
            } else {
                Some((TermFields { ty: Some(v), ..acc }, j))
            },
            None => None,
        }
    } else if k == "value"@ {
        match p_string(s, i) {
            Some((v, j)) => if acc.value is Some {
                None
            } else {
                Some((TermFields { value: Some(v), ..acc }, j))
            },
            None => None,
        }
    } else if k == "xml:lang"@ {
        match p_string(s, i) {
            Some((v, j)) => if acc.lang is Some {
                None
            } else {
                Some((TermFields { lang: Some(v), ..acc }, j))
            },
            None => None,
        }
    } else if k == "datatype"@ {
        match p_string(s, i) {
            Some((v, j)) => if acc.datatype is Some {
                None
            } else {
                Some((TermFields { datatype: Some(v), ..acc }, j))
            },
            None => None,
        }
    } else {
        match skip_value(s, i) {
            Some(j) => Some((acc, j)),
            None => None,
        }
    }
}

/// The field list of a term object, `i` at the opening quote of a key.
pub open spec fn term_fields(s: Seq<char>, i: int, acc: TermFields) -> Option<(TermFields, int)>
    decreases s.len() - i,
{
    match p_string(s, i) {
        Some((k, j)) => {
            let j2 = skip_ws(s, j);
            if !(0 <= j2 < s.len() && s[j2] == ':') {
                None
            } else {
                let j3 = skip_ws(s, j2 + 1);
                match term_field_value(s, j3, acc, k) {
                    Some((acc2, j4)) => {
                        let j5 = skip_ws(s, j4);
                        if !(0 <= j5 < s.len()) {
                            None
                        } else if s[j5] == '}' {
                            Some((acc2, j5 + 1))
                        } else if s[j5] == ',' {
                            let j6 = skip_ws(s, j5 + 1);
                            if j6 <= i || j6 > s.len() {
                                None
                            } else {
                                term_fields(s, j6, acc2)
                            }
                        } else {
                            None
                        }
                    },
                    None => None,
                }
            }
        },
        None => None,
    }
}

/// The term a completed field set denotes, discriminated by its `type`
/// tag; an unknown tag or a missing required field is a decode failure.
pub open spec fn term_of_fields(f: TermFields) -> Option<TermModel> {
    match (f.ty, f.value) {
        (Some(ty), Some(v)) => {
            if ty == "uri"@ {
                Some(TermModel::Uri { value: v })
            } else if ty == "literal"@ {
                Some(TermModel::Literal { value: v, lang: f.lang, datatype: f.datatype })
            } else if ty == "bnode"@ {
                Some(TermModel::Bnode { value: v })
            } else {
                None
            }
        },
        _ => None,
    }
}

/// One term object starting at its opening brace.
pub open spec fn p_term(s: Seq<char>, i: int) -> Option<(TermModel, int)> {
    if !(0 <= i < s.len() && s[i] == '{') {
        None
    } else {
        let j = skip_ws(s, i + 1);
        let start = TermFields { ty: None, value: None, lang: None, datatype: None };
        let fr = if 0 <= j < s.len() && s[j] == '}' {
            Some((start, j + 1))
        } else {
            term_fields(s, j, start)
        };
        match fr {
            Some((f, end)) => match term_of_fields(f) {
                Some(t) => Some((t, end)),
                None => None,
            },
            None => None,
        }
    }
}

/// The field list of a row object, `i` at the opening quote of a variable
/// name; a repeated name keeps the later term.
pub open spec fn row_fields(s: Seq<char>, i: int, acc: RowModel) -> Option<(RowModel, int)>
    decreases s.len() - i,
{
    match p_string(s, i) {
        Some((k, j)) => {
            let j2 = skip_ws(s, j);
            if !(0 <= j2 < s.len() && s[j2] == ':') {
                None
            } else {
                let j3 = skip_ws(s, j2 + 1);
                match p_term(s, j3) {
                    Some((t, j4)) => {
                        let acc2 = row_insert(acc, k, t);
                        let j5 = skip_ws(s, j4);
                        if !(0 <= j5 < s.len()) {
                            None
                        } else if s[j5] == '}' {
                            Some((acc2, j5 + 1))
                        } else if s[j5] == ',' {
                            let j6 = skip_ws(s, j5 + 1);
                            if j6 <= i || j6 > s.len() {
                                None
                            } else {
                                row_fields(s, j6, acc2)
                            }
                        } else {
                            None
                        }
                    },
                    None => None,
                }
            }
        },
        None => None,
    }
}

/// One row object starting at its opening brace.
pub open spec fn p_row(s: Seq<char>, i: int) -> Option<(RowModel, int)> {
    if !(0 <= i < s.len() && s[i] == '{') {
        None
    } else {
        let j = skip_ws(s, i + 1);
        if 0 <= j < s.len() && s[j] == '}' {
            Some((Seq::empty(), j + 1))
        } else {
            row_fields(s, j, Seq::empty())
        }
    }
}

/// The model a whole row region decodes to, or `None` on a decode failure.
pub open spec fn row_region(s: Seq<char>) -> Option<RowModel> {
    match p_row(s, skip_ws(s, 0)) {
        Some((r, end)) => if end == s.len() {
            Some(r)
        } else {
            None
        },
        None => None,
    }
}

/// The items of the `vars` array, `i` at the opening quote of a name.
pub open spec fn vars_items(s: Seq<char>, i: int, acc: Seq<Seq<char>>) -> Option<
    (Seq<Seq<char>>, int),
>
    decreases s.len() - i,
{
    match p_string(s, i) {
        Some((v, j)) => {
            let acc2 = acc.push(v);
            let j2 = skip_ws(s, j);
            if !(0 <= j2 < s.len()) {
                None
            } else if s[j2] == ']' {
                Some((acc2, j2 + 1))
            } else if s[j2] == ',' {
                let j3 = skip_ws(s, j2 + 1);
                if j3 <= i || j3 > s.len() {
                    None
                } else {
                    vars_items(s, j3, acc2)
                }
            } else {
                None
            }
        },
        None => None,
    }
}

/// The `vars` array of variable names, starting at its opening bracket.
pub open spec fn p_vars(s: Seq<char>, i: int) -> Option<(Seq<Seq<char>>, int)> {
    if !(0 <= i < s.len() && s[i] == '[') {
        None
    } else {
        let j = skip_ws(s, i + 1);
        if 0 <= j < s.len() && s[j] == ']' {
            Some((Seq::empty(), j + 1))
        } else {
            vars_items(s, j, Seq::empty())
        }
    }
}

/// The field list of the inner head object: `vars` takes the name array
/// and may not repeat; an unknown field is skipped.
pub open spec fn head_fields(s: Seq<char>, i: int, acc: Option<Seq<Seq<char>>>) -> Option<
    (Option<Seq<Seq<char>>>, int),
>
    decreases s.len() - i,
{
    match p_string(s, i) {
        Some((k, j)) => {
            let j2 = skip_ws(s, j);
            if !(0 <= j2 < s.len() && s[j2] == ':') {
                None
            } else {
                let j3 = skip_ws(s, j2 + 1);
                let vr = if k == "vars"@ {
                    if acc is Some {
                        None
                    } else {
                        match p_vars(s, j3) {
                            Some((vs, j4)) => Some((Some(vs), j4)),
                            None => None,
                        }
                    }
                } else {
                    match skip_value(s, j3) {
                        Some(j4) => Some((acc, j4)),
                        None => None,
                    }
                };
                match vr {
                    Some((acc2, j4)) => {
                        let j5 = skip_ws(s, j4);
                        if !(0 <= j5 < s.len()) {
                            None
                        } else if s[j5] == '}' {
                            Some((acc2, j5 + 1))
                        } else if s[j5] == ',' {
                            let j6 = skip_ws(s, j5 + 1);
                            if j6 <= i || j6 > s.len() {
                                None
                            } else {
                                head_fields(s, j6, acc2)
                            }
                        } else {
                            None
                        }
                    },
                    None => None,
                }
            }
        },
        None => None,
    }
}

/// The inner head object, starting at its opening brace; its `vars` field
/// is mandatory.
pub open spec fn p_head_obj(s: Seq<char>, i: int) -> Option<(Seq<Seq<char>>, int)> {
    if !(0 <= i < s.len() && s[i] == '{') {
        None
    } else {
        let j = skip_ws(s, i + 1);
        let fr = if 0 <= j < s.len() && s[j] == '}' {
            Some((Option::<Seq<Seq<char>>>::None, j + 1))
        } else {
            head_fields(s, j, None)
        };
        match fr {
            Some((Some(vs), end)) => Some((vs, end)),
            _ => None,
        }
    }
}

/// The field list of the outer header object: `head` takes the inner
/// object and may not repeat; an unknown field is skipped.
pub open spec fn header_fields(s: Seq<char>, i: int, acc: Option<Seq<Seq<char>>>) -> Option<
    (Option<Seq<Seq<char>>>, int),
>
    decreases s.len() - i,
{
    match p_string(s, i) {
        Some((k, j)) => {
            let j2 = skip_ws(s, j);
            if !(0 <= j2 < s.len() && s[j2] == ':') {
                None
            } else {
                let j3 = skip_ws(s, j2 + 1);
                let vr = if k == "head"@ {
                    if acc is Some {
                        None
                    } else {
                        match p_head_obj(s, j3) {
                            Some((vs, j4)) => Some((Some(vs), j4)),
                            None => None,
                        }
                    }
                } else {
                    match skip_value(s, j3) {
                        Some(j4) => Some((acc, j4)),
                        None => None,
                    }
                };
                match vr {
                    Some((acc2, j4)) => {
                        let j5 = skip_ws(s, j4);
                        if !(0 <= j5 < s.len()) {
                            None
                        } else if s[j5] == '}' {
                            Some((acc2, j5 + 1))
                        } else if s[j5] == ',' {
                            let j6 = skip_ws(s, j5 + 1);
                            if j6 <= i || j6 > s.len() {
                                None
                            } else {
                                header_fields(s, j6, acc2)
                            }
                        } else {
                            None
                        }
                    },
                    None => None,
                }
            }
        },
        None => None,
    }
}

/// The model the head region decodes to: the variable names of the
/// mandatory `head.vars` array, or `None` on a decode failure.
pub open spec fn head_region(s: Seq<char>) -> Option<Seq<Seq<char>>> {
    let i = skip_ws(s, 0);
    if !(0 <= i < s.len() && s[i] == '{') {
        None
    } else {
        let j = skip_ws(s, i + 1);
        let fr = if 0 <= j < s.len() && s[j] == '}' {
            Some((Option::<Seq<Seq<char>>>::None, j + 1))
        } else {
            header_fields(s, j, None)
        };
        match fr {
            Some((Some(vs), end)) => if end == s.len() {
                Some(vs)
            } else {
                None
            },
            _ => None,
        }
    }
}

/// The field list of the meta object: `query-time-ms` and
/// `result-size-total` each take an unsigned integer and may not repeat;
/// an unknown field is skipped.
pub open spec fn meta_fields(s: Seq<char>, i: int, acc: (Option<u64>, Option<u64>)) -> Option<
    ((Option<u64>, Option<u64>), int),
>
    decreases s.len() - i,
{
    match p_string(s, i) {
        Some((k, j)) => {
            let j2 = skip_ws(s, j);
            if !(0 <= j2 < s.len() && s[j2] == ':') {
                None
            } else {
                let j3 = skip_ws(s, j2 + 1);
                let vr = if k == "query-time-ms"@ {
                    match p_uint(s, j3) {
                        Some((v, j4)) => if acc.0 is Some {
                            None
                        } else {
                            Some(((Some(v), acc.1), j4))
                        },
                        None => None,
                    }
                } else if k == "result-size-total"@ {
                    match p_uint(s, j3) {
                        Some((v, j4)) => if acc.1 is Some {
                            None
                        } else {
                            Some(((acc.0, Some(v)), j4))
                        },
                        None => None,
                    }
                } else {
                    match skip_value(s, j3) {
                        Some(j4) => Some((acc, j4)),
                        None => None,
                    }
                };
                match vr {
                    Some((acc2, j4)) => {
                        let j5 = skip_ws(s, j4);
                        if !(0 <= j5 < s.len()) {
                            None
                        } else if s[j5] == '}' {
                            Some((acc2, j5 + 1))
                        } else if s[j5] == ',' {
                            let j6 = skip_ws(s, j5 + 1);
                            if j6 <= i || j6 > s.len() {
                                None
                            } else {
                                meta_fields(s, j6, acc2)
                            }
                        } else {
                            None
                        }
                    },
                    None => None,
                }
            }
        },
        None => None,
    }
}

/// The model the meta region decodes to: both statistics are mandatory.
pub open spec fn meta_region(s: Seq<char>) -> Option<Meta> {
    let i = skip_ws(s, 0);
    if !(0 <= i < s.len() && s[i] == '{') {
        None
    } else {
        let j = skip_ws(s, i + 1);
        let fr = if 0 <= j < s.len() && s[j] == '}' {
            Some(((Option::<u64>::None, Option::<u64>::None), j + 1))
        } else {
            meta_fields(s, j, (None, None))
        };
        match fr {
            Some(((Some(q), Some(t)), end)) => if end == s.len() {
                Some(Meta { query_time_ms: q, result_size_total: t })
            } else {
                None
            },
            _ => None,
        }
    }
}

/// Replacing or appending a binding keeps the row's names distinct.
proof fn lemma_row_insert_distinct(r: RowModel, k: Seq<char>, v: TermModel)
    requires
        row_keys_distinct(r),
    ensures
        row_keys_distinct(row_insert(r, k, v)),
{
    let r2 = row_insert(r, k, v);
    if exists|i: int| 0 <= i < r.len() && r[i].0 == k {
        assert forall|i: int, j: int| 0 <= i < j < r2.len() implies r2[i].0 != r2[j].0 by {
            assert(r2[i].0 == r[i].0);
            assert(r2[j].0 == r[j].0);
        }
    }
}

/// Every row the field list of a row object yields has distinct names.
proof fn lemma_row_fields_distinct(s: Seq<char>, i: int, acc: RowModel)
    requires
        row_keys_distinct(acc),
    ensures
        row_fields(s, i, acc) matches Some(p) ==> row_keys_distinct(p.0),
    decreases s.len() - i,
{
    match p_string(s, i) {
        Some((k, j)) => {
            let j2 = skip_ws(s, j);
            if 0 <= j2 < s.len() && s[j2] == ':' {
                let j3 = skip_ws(s, j2 + 1);
                match p_term(s, j3) {
                    Some((t, j4)) => {
                        let acc2 = row_insert(acc, k, t);
                        lemma_row_insert_distinct(acc, k, t);
                        let j5 = skip_ws(s, j4);
                        if 0 <= j5 < s.len() && s[j5] == ',' {
                            let j6 = skip_ws(s, j5 + 1);
                            if i < j6 <= s.len() {
                                lemma_row_fields_distinct(s, j6, acc2);
                            }
                        }
                    },
                    None => {},
                }
            }
        },
        None => {},
    }
}

/// Every row a row region decodes to has distinct names.
pub proof fn lemma_row_region_distinct(s: Seq<char>)
    ensures
        row_region(s) matches Some(r) ==> row_keys_distinct(r),
{
    let i = skip_ws(s, 0);
    if 0 <= i < s.len() && s[i] == '{' {
        let j = skip_ws(s, i + 1);
        if !(0 <= j < s.len() && s[j] == '}') {
            lemma_row_fields_distinct(s, j, Seq::empty());
        }
    }
}

/// The collected fields of a term object, as decoded strings.
struct FieldsX {
    ty: Option<String>,
    value: Option<String>,
    lang: Option<String>,
    datatype: Option<String>,
}

impl View for FieldsX {
    type V = TermFields;

    closed spec fn view(&self) -> TermFields {
        TermFields {
            ty: self.ty.deep_view(),
            value: self.value.deep_view(),
            lang: self.lang.deep_view(),
            datatype: self.datatype.deep_view(),
        }
    }
}

/// Exec counterpart of [`term_field_value`].
fn scan_term_field_value(s: &Vec<char>, i: usize, acc: FieldsX, k: &String) -> (r: Option<
    (FieldsX, usize),
>)
    requires
        i <= s@.len(),
    ensures
        match r {
            Some(p) => term_field_value(s@, i as int, acc@, k@) matches Some(q) && p.0@ == q.0
                && p.1 == q.1 && i < p.1 <= s@.len(),
            None => term_field_value(s@, i as int, acc@, k@) is None,
        },
{
    if *k == String::from_str("type") {
        match scan_string(s, i) {
            Some((v, j)) => {
                if acc.ty.is_some() {
                    None
                } else {
                    Some((FieldsX { ty: Some(v), ..acc }, j))
                }
            },
            None => None,
        }
    } else if *k == String::from_str("value") {
        match scan_string(s, i) {
            Some((v, j)) => {
                if acc.value.is_some() {
                    None
                } else {
                    Some((FieldsX { value: Some(v), ..acc }, j))
                }
            },
            None => None,
        }
    } else if *k == String::from_str("xml:lang") {
        match scan_string(s, i) {
            Some((v, j)) => {
                if acc.lang.is_some() {
                    None
                } else {
                    Some((FieldsX { lang: Some(v), ..acc }, j))
                }
            },
            None => None,
        }
    } else if *k == String::from_str("datatype") {
        match scan_string(s, i) {
            Some((v, j)) => {
                if acc.datatype.is_some() {
                    None
                } else {
                    Some((FieldsX { datatype: Some(v), ..acc }, j))
                }
            },
            None => None,
        }
    } else {
        match skim_value(s, i) {
            Some(j) => Some((acc, j)),
            None => None,
        }
    }
}

/// Exec counterpart of [`term_fields`].
fn scan_term_fields(s: &Vec<char>, i: usize, acc: FieldsX) -> (r: Option<(FieldsX, usize)>)
    requires
        i <= s@.len(),
    ensures
        match r {
            Some(p) => term_fields(s@, i as int, acc@) matches Some(q) && p.0@ == q.0 && p.1
                == q.1 && i < p.1 <= s@.len(),
            None => term_fields(s@, i as int, acc@) is None,
        },
    decreases s@.len() - i,
{
    match scan_string(s, i) {
        Some((k, j)) => {
            let j2 = ws_end(s, j);
            if !(j2 < s.len() && s[j2] == ':') {
                None
            } else {
                let j3 = ws_end(s, j2 + 1);
                match scan_term_field_value(s, j3, acc, &k) {
                    Some((acc2, j4)) => {
                        let j5 = ws_end(s, j4);
                        if !(j5 < s.len()) {
                            None
                        } else if s[j5] == '}' {
                            Some((acc2, j5 + 1))
                        } else if s[j5] == ',' {
                            let j6 = ws_end(s, j5 + 1);
                            scan_term_fields(s, j6, acc2)
                        } else {
                            None
                        }
                    },
                    None => None,
                }
            }
        },
        None => None,
    }
}

/// Exec counterpart of [`term_of_fields`].
fn fields_to_term(f: FieldsX) -> (r: Option<RDFValue>)
    ensures
        match r {
            Some(t) => term_of_fields(f@) matches Some(q) && t@ == q,
            None => term_of_fields(f@) is None,
        },
{
    match (f.ty, f.value) {
        (Some(ty), Some(v)) => {
            if ty == String::from_str("uri") {
                Some(RDFValue::Uri { value: v })
            } else if ty == String::from_str("literal") {
                Some(RDFValue::Literal { value: v, lang: f.lang, datatype: f.datatype })
            } else if ty == String::from_str("bnode") {
                Some(RDFValue::Bnode { value: v })
            } else {
                None
            }
        },
        _ => None,
    }
}

/// Exec counterpart of [`p_term`].
fn scan_term(s: &Vec<char>, i: usize) -> (r: Option<(RDFValue, usize)>)
    requires
        i <= s@.len(),
    ensures
        match r {
            Some(p) => p_term(s@, i as int) matches Some(q) && p.0@ == q.0 && p.1 == q.1 && i
                < p.1 <= s@.len(),
            None => p_term(s@, i as int) is None,
        },
{
    if !(i < s.len() && s[i] == '{') {
        return None;
    }
    let j = ws_end(s, i + 1);
    let start = FieldsX { ty: None, value: None, lang: None, datatype: None };
    let fr = if j < s.len() && s[j] == '}' {
        Some((start, j + 1))
    } else {
        scan_term_fields(s, j, start)
    };
    match fr {
        Some((f, end)) => {
            match fields_to_term(f) {
                Some(t) => Some((t, end)),
                None => None,
            }
        },
        None => None,
    }
}

/// Exec counterpart of [`row_fields`], building the row.
fn scan_row_fields(s: &Vec<char>, i: usize, acc: Binding) -> (r: Option<(Binding, usize)>)
    requires
        i <= s@.len(),
        acc.wf(),
    ensures
        match r {
            Some(p) => row_fields(s@, i as int, acc@) matches Some(q) && p.0@ == q.0 && p.1
                == q.1 && i < p.1 <= s@.len() && p.0.wf(),
            None => row_fields(s@, i as int, acc@) is None,
        },
    decreases s@.len() - i,
{
    match scan_string(s, i) {
        Some((k, j)) => {
            let j2 = ws_end(s, j);
            if !(j2 < s.len() && s[j2] == ':') {
                None
            } else {
                let j3 = ws_end(s, j2 + 1);
                match scan_term(s, j3) {
                    Some((t, j4)) => {
                        let mut acc2 = acc;
                        acc2.insert(k, t);
                        let j5 = ws_end(s, j4);
                        if !(j5 < s.len()) {
                            None
                        } else if s[j5] == '}' {
                            Some((acc2, j5 + 1))
                        } else if s[j5] == ',' {
                            let j6 = ws_end(s, j5 + 1);
                            scan_row_fields(s, j6, acc2)
                        } else {
                            None
                        }
                    },
                    None => None,
                }
            }
        },
        None => None,
    }
}

/// Decodes one row region: the row it denotes, or `None` when the text is
/// not a valid row object.
pub fn decode_row(s: &Vec<char>) -> (r: Option<Binding>)
    ensures
        match r {
            Some(b) => row_region(s@) matches Some(m) && b@ == m && b.wf(),
            None => row_region(s@) is None,
        },
{
    let i = ws_end(s, 0);
    if !(i < s.len() && s[i] == '{') {
        return None;
    }
    let j = ws_end(s, i + 1);
    let pr = if j < s.len() && s[j] == '}' {
        Some((Binding::new(), j + 1))
    } else {
        scan_row_fields(s, j, Binding::new())
    };
    match pr {
        Some((b, end)) => {
            if end == s.len() {
                Some(b)
            } else {
                None
            }
        },
        None => None,
    }
}

/// Exec counterpart of [`vars_items`].
fn scan_vars_items(s: &Vec<char>, i: usize, acc: Vec<String>) -> (r: Option<(Vec<String>, usize)>)
    requires
        i <= s@.len(),
    ensures
        match r {
            Some(p) => vars_items(s@, i as int, acc.deep_view()) matches Some(q) && p.0.deep_view()
                == q.0 && p.1 == q.1 && i < p.1 <= s@.len(),
            None => vars_items(s@, i as int, acc.deep_view()) is None,
        },
    decreases s@.len() - i,
{
    match scan_string(s, i) {
        Some((v, j)) => {
            let mut acc2 = acc;
            acc2.push(v);
            proof {
                assert(acc2.deep_view() =~= acc.deep_view().push(v@));
            }
            let j2 = ws_end(s, j);
            if !(j2 < s.len()) {
                None
            } else if s[j2] == ']' {
                Some((acc2, j2 + 1))
            } else if s[j2] == ',' {
                let j3 = ws_end(s, j2 + 1);
                scan_vars_items(s, j3, acc2)
            } else {
                None
            }
        },
        None => None,
    }
}

/// Exec counterpart of [`p_vars`].
fn scan_vars(s: &Vec<char>, i: usize) -> (r: Option<(Vec<String>, usize)>)
    requires
        i <= s@.len(),
    ensures
        match r {
            Some(p) => p_vars(s@, i as int) matches Some(q) && p.0.deep_view() == q.0 && p.1 == q.1
                && i < p.1 <= s@.len(),
            None => p_vars(s@, i as int) is None,
        },
{
    if !(i < s.len() && s[i] == '[') {
        return None;
    }
    let j = ws_end(s, i + 1);
    if j < s.len() && s[j] == ']' {
        let out: Vec<String> = Vec::new();
        proof {
            assert(out.deep_view() =~= Seq::<Seq<char>>::empty());
        }
        Some((out, j + 1))
    } else {
        let out: Vec<String> = Vec::new();
        proof {
            assert(out.deep_view() =~= Seq::<Seq<char>>::empty());
        }
        scan_vars_items(s, j, out)
    }
}

/// Exec counterpart of [`head_fields`].
fn scan_head_fields(s: &Vec<char>, i: usize, acc: Option<Vec<String>>) -> (r: Option<
    (Option<Vec<String>>, usize),
>)
    requires
        i <= s@.len(),
    ensures
        match r {
            Some(p) => head_fields(s@, i as int, acc.deep_view()) matches Some(q)
                && p.0.deep_view() == q.0 && p.1 == q.1 && i < p.1 <= s@.len(),
            None => head_fields(s@, i as int, acc.deep_view()) is None,
        },
    decreases s@.len() - i,
{
    match scan_string(s, i) {
        Some((k, j)) => {
            let j2 = ws_end(s, j);
            if !(j2 < s.len() && s[j2] == ':') {
                None
            } else {
                let j3 = ws_end(s, j2 + 1);
                let vr: Option<(Option<Vec<String>>, usize)> = if k == String::from_str("vars") {
                    if acc.is_some() {
                        None
                    } else {
                        match scan_vars(s, j3) {
                            Some((vs, j4)) => Some((Some(vs), j4)),
                            None => None,
                        }
                    }
                } else {
                    match skim_value(s, j3) {
                        Some(j4) => Some((acc, j4)),
                        None => None,
                    }
                };
                match vr {
                    Some((acc2, j4)) => {
                        let j5 = ws_end(s, j4);
                        if !(j5 < s.len()) {
                            None
                        } else if s[j5] == '}' {
                            Some((acc2, j5 + 1))
                        } else if s[j5] == ',' {
                            let j6 = ws_end(s, j5 + 1);
                            scan_head_fields(s, j6, acc2)
                        } else {
                            None
                        }
                    },
                    None => None,
                }
            }
        },
        None => None,
    }
}

/// Exec counterpart of [`p_head_obj`].
fn scan_head_obj(s: &Vec<char>, i: usize) -> (r: Option<(Vec<String>, usize)>)
    requires
        i <= s@.len(),
    ensures
        match r {
            Some(p) => p_head_obj(s@, i as int) matches Some(q) && p.0.deep_view() == q.0 && p.1
                == q.1 && i < p.1 <= s@.len(),
            None => p_head_obj(s@, i as int) is None,
        },
{
    if !(i < s.len() && s[i] == '{') {
        return None;
    }
    let j = ws_end(s, i + 1);
    let fr: Option<(Option<Vec<String>>, usize)> = if j < s.len() && s[j] == '}' {
        Some((None, j + 1))
    } else {
        scan_head_fields(s, j, None)
    };
    match fr {
        Some((Some(vs), end)) => Some((vs, end)),
        _ => None,
    }
}

/// Exec counterpart of [`header_fields`].
fn scan_header_fields(s: &Vec<char>, i: usize, acc: Option<Vec<String>>) -> (r: Option<
    (Option<Vec<String>>, usize),
>)
    requires
        i <= s@.len(),
    ensures
        match r {
            Some(p) => header_fields(s@, i as int, acc.deep_view()) matches Some(q)
                && p.0.deep_view() == q.0 && p.1 == q.1 && i < p.1 <= s@.len(),
            None => header_fields(s@, i as int, acc.deep_view()) is None,
        },
    decreases s@.len() - i,
{
    match scan_string(s, i) {
        Some((k, j)) => {
            let j2 = ws_end(s, j);
            if !(j2 < s.len() && s[j2] == ':') {
                None
            } else {
                let j3 = ws_end(s, j2 + 1);
                let vr: Option<(Option<Vec<String>>, usize)> = if k == String::from_str("head") {
                    if acc.is_some() {
                        None
                    } else {
                        match scan_head_obj(s, j3) {
                            Some((vs, j4)) => Some((Some(vs), j4)),
                            None => None,
                        }
                    }
                } else {
                    match skim_value(s, j3) {
                        Some(j4) => Some((acc, j4)),
                        None => None,
                    }
                };
                match vr {
                    Some((acc2, j4)) => {
                        let j5 = ws_end(s, j4);
                        if !(j5 < s.len()) {
                            None
                        } else if s[j5] == '}' {
                            Some((acc2, j5 + 1))
                        } else if s[j5] == ',' {
                            let j6 = ws_end(s, j5 + 1);
                            scan_header_fields(s, j6, acc2)
                        } else {
                            None
                        }
                    },
                    None => None,
                }
            }
        },
        None => None,
    }
}

/// Decodes the head region: the header it denotes, or `None` when the
/// text is not a valid header object.
pub fn decode_header(s: &Vec<char>) -> (r: Option<Header>)
    ensures
        match r {
            Some(h) => head_region(s@) matches Some(m) && h@ == m,
            None => head_region(s@) is None,
        },
{
    let i = ws_end(s, 0);
    if !(i < s.len() && s[i] == '{') {
        return None;
    }
    let j = ws_end(s, i + 1);
    let fr: Option<(Option<Vec<String>>, usize)> = if j < s.len() && s[j] == '}' {
        Some((None, j + 1))
    } else {
        scan_header_fields(s, j, None)
    };
    match fr {
        Some((Some(vs), end)) => {
            if end == s.len() {
                Some(Header { head: Head { vars: vs } })
            } else {
                None
            }
        },
        _ => None,
    }
}

/// Exec counterpart of [`meta_fields`].
fn scan_meta_fields(s: &Vec<char>, i: usize, acc: (Option<u64>, Option<u64>)) -> (r: Option<
    ((Option<u64>, Option<u64>), usize),
>)
    requires
        i <= s@.len(),
    ensures
        match r {
            Some(p) => meta_fields(s@, i as int, acc) matches Some(q) && p.0 == q.0 && p.1 == q.1
                && i < p.1 <= s@.len(),
            None => meta_fields(s@, i as int, acc) is None,
        },
    decreases s@.len() - i,
{
    match scan_string(s, i) {
        Some((k, j)) => {
            let j2 = ws_end(s, j);
            if !(j2 < s.len() && s[j2] == ':') {
                None
            } else {
                let j3 = ws_end(s, j2 + 1);
                let vr: Option<((Option<u64>, Option<u64>), usize)> = if k == String::from_str(
                    "query-time-ms",
                ) {
                    match scan_uint(s, j3) {
                        Some((v, j4)) => {
                            if acc.0.is_some() {
                                None
                            } else {
                                Some(((Some(v), acc.1), j4))
                            }
                        },
                        None => None,
                    }
                } else if k == String::from_str("result-size-total") {
                    match scan_uint(s, j3) {
                        Some((v, j4)) => {
                            if acc.1.is_some() {
                                None
                            } else {
                                Some(((acc.0, Some(v)), j4))
                            }
                        },
                        None => None,
                    }
                } else {
                    match skim_value(s, j3) {
                        Some(j4) => Some((acc, j4)),
                        None => None,
                    }
                };
                match vr {
                    Some((acc2, j4)) => {
                        let j5 = ws_end(s, j4);
                        if !(j5 < s.len()) {
                            None
                        } else if s[j5] == '}' {
                            Some((acc2, j5 + 1))
                        } else if s[j5] == ',' {
                            let j6 = ws_end(s, j5 + 1);
                            scan_meta_fields(s, j6, acc2)
                        } else {
                            None
                        }
                    },
                    None => None,
                }
            }
        },
        None => None,
    }
}

/// Decodes the meta region: the statistics it denotes, or `None` when the
/// text is not a valid meta object.
pub fn decode_meta(s: &Vec<char>) -> (r: Option<Meta>)
    ensures
        r == meta_region(s@),
{
    let i = ws_end(s, 0);
    if !(i < s.len() && s[i] == '{') {
        return None;
    }
    let j = ws_end(s, i + 1);
    let fr: Option<((Option<u64>, Option<u64>), usize)> = if j < s.len() && s[j] == '}' {
        Some(((None, None), j + 1))
    } else {
        scan_meta_fields(s, j, (None, None))
    };
    match fr {
        Some(((Some(q), Some(t)), end)) => {
            if end == s.len() {
                Some(Meta { query_time_ms: q, result_size_total: t })
            } else {
                None
            }
        },
        _ => None,
    }
}

} // verus!
