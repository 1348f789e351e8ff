//! Schema types of the SPARQL JSON results wire format, with their
//! mathematical models (views over character sequences).

use vstd::prelude::*;

verus! {

/// One RDF term of a result binding: an IRI, a literal (optionally carrying
/// a language tag and a datatype IRI, each entirely absent when omitted),
/// or a blank node label.
#[derive(Debug, Clone, PartialEq, Eq)]
pub enum RDFValue {
    Uri { value: String },
    Literal { value: String, lang: Option<String>, datatype: Option<String> },
    Bnode { value: String },
}

/// Model of an RDF term: its strings as character sequences.
pub enum TermModel {
    Uri { value: Seq<char> },
    Literal { value: Seq<char>, lang: Option<Seq<char>>, datatype: Option<Seq<char>> },
    Bnode { value: Seq<char> },
}

impl View for RDFValue {
    type V = TermModel;

    open spec fn view(&self) -> TermModel {
        match self {
            RDFValue::Uri { value } => TermModel::Uri { value: value@ },
            RDFValue::Literal { value, lang, datatype } => TermModel::Literal {
                value: value@,
                lang: lang.deep_view(),
                datatype: datatype.deep_view(),
            },
            RDFValue::Bnode { value } => TermModel::Bnode { value: value@ },
        }
    }
}

impl DeepView for RDFValue {
    type V = TermModel;

    open spec fn deep_view(&self) -> TermModel {
        self.view()
    }
}

/// Model of one result row: its (variable name, term) pairs in order,
/// with pairwise distinct names.
pub type RowModel = Seq<(Seq<char>, TermModel)>;

/// Holds of a row model whose variable names are pairwise distinct.
pub open spec fn row_keys_distinct(r: RowModel) -> bool {
    forall|i: int, j: int| 0 <= i < j < r.len() ==> r[i].0 != r[j].0
}

/// `r` with the term of name `k` replaced by `v` if `k` is already bound,
/// and `(k, v)` appended otherwise (the later occurrence wins).
pub open spec fn row_insert(r: RowModel, k: Seq<char>, v: TermModel) -> RowModel {
    if exists|i: int| 0 <= i < r.len() && r[i].0 == k {
        r.map(|i: int, p: (Seq<char>, TermModel)| if p.0 == k { (k, v) } else { p })
    } else {
        r.push((k, v))
    }
}

/// One result row: a mapping from variable names to RDF terms.
/// The names are unique within one row; later insertions of the same
/// name replace the earlier term.
#[derive(Debug, Clone, PartialEq, Eq)]
pub struct Binding {
    pairs: Vec<(String, RDFValue)>,
}

impl View for Binding {
    type V = RowModel;

    closed spec fn view(&self) -> RowModel {
        self.pairs.deep_view()
    }
}

impl DeepView for Binding {
    type V = RowModel;

    closed spec fn deep_view(&self) -> RowModel {
        self.view()
    }
}

/// A row's deep view is its view.
pub broadcast proof fn lemma_binding_deep_view_is_view(b: Binding)
    ensures
        #[trigger] b.deep_view() == b@,
{
}

impl Binding {
    /// The names of this row are pairwise distinct.
    pub open spec fn wf(&self) -> bool {
        row_keys_distinct(self@)
    }

    /// An empty row.
    pub fn new() -> (r: Binding)
        ensures
            r@ == Seq::<(Seq<char>, TermModel)>::empty(),
            r.wf(),
    {
        let r = Binding { pairs: Vec::new() };
        proof {
            assert(r@ =~= Seq::<(Seq<char>, TermModel)>::empty());
        }
        r
    }

    /// Binds `k` to `v`, replacing any earlier term bound to `k`.
    #[verifier::loop_isolation(false)]
    pub fn insert(&mut self, k: String, v: RDFValue)
        requires
            old(self).wf(),
        ensures
            final(self).wf(),
            final(self)@ == row_insert(old(self)@, k@, v@),
    {
        let ghost old_view = self@;
        let ghost old_pairs = self.pairs@;
        let mut idx: usize = 0;
        let n = self.pairs.len();
        while idx < n
            invariant
                n == self.pairs.len(),
                idx <= n,
                self@ == old_view,
                self.pairs@ == old_pairs,
                row_keys_distinct(old_view),
                old_view.len() == n,
                forall|i: int| 0 <= i < idx ==> old_view[i].0 != k@,
            decreases n - idx,
        {
            proof {
                assert(old_view[idx as int] == self.pairs@[idx as int].deep_view());
            }
            if self.pairs[idx].0 == k {
                self.pairs.set(idx, (k, v));
                proof {
                    assert(old_view[idx as int].0 == k@);
                    assert(exists|i: int|
                        0 <= i < old_view.len() && old_view[i].0 == k@);
                    assert forall|i: int| 0 <= i < old_view.len() implies #[trigger] self@[i]
                        == (if old_view[i].0 == k@ { (k@, v@) } else { old_view[i] }) by {
                        assert(self@[i] == self.pairs@[i].deep_view());
                        if i != idx as int {
                            assert(self.pairs@[i] == old_pairs[i]);
                            assert(old_view[i] == old_pairs[i].deep_view());
                        }
                    }
                    assert(self@ =~= row_insert(old_view, k@, v@));
                }
                return ;
            }
            idx += 1;
        }
        self.pairs.push((k, v));
        proof {
            assert(forall|i: int| 0 <= i < old_view.len() ==> old_view[i].0 != k@);
            assert(self@ =~= row_insert(old_view, k@, v@));
        }
    }

    /// The (name, term) pairs of this row, in insertion order.
    pub fn pairs(&self) -> (r: &Vec<(String, RDFValue)>)
        ensures
            r.deep_view() == self@,
    {
        &self.pairs
    }
}

/// The head of a result document: its variable names in order.
#[derive(Debug, Clone, PartialEq, Eq)]
pub struct Head {
    pub vars: Vec<String>,
}

impl View for Head {
    type V = Seq<Seq<char>>;

    open spec fn view(&self) -> Seq<Seq<char>> {
        self.vars.deep_view()
    }
}

/// The decoded head region: an object wrapping the [`Head`].
#[derive(Debug, Clone, PartialEq, Eq)]
pub struct Header {
    pub head: Head,
}

impl View for Header {
    type V = Seq<Seq<char>>;

    open spec fn view(&self) -> Seq<Seq<char>> {
        self.head@
    }
}

/// The rows of a result document.
#[derive(Debug, Clone, PartialEq, Eq)]
pub struct Bindings {
    pub bindings: Vec<Binding>,
}

impl View for Bindings {
    type V = Seq<RowModel>;

    open spec fn view(&self) -> Seq<RowModel> {
        self.bindings.deep_view()
    }
}

/// The trailing metadata object with its result statistics.
#[derive(Debug, Clone, Copy, PartialEq, Eq, Structural)]
pub struct Meta {
    pub query_time_ms: u64,
    pub result_size_total: u64,
}

/// A whole result document: head, rows and trailing metadata.
#[derive(Debug, Clone, PartialEq, Eq)]
pub struct SparqlResult {
    pub head: Head,
    pub results: Bindings,
    pub meta: Meta,
}

} // verus!
