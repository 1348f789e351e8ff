//! The incremental parser: scanner, region decoder and batch accumulator
//! working together.  One character goes in per call; out come chunks —
//! exactly one header, zero or more full row batches, and one metadata
//! chunk — while memory stays bounded by the open region plus one pending
//! batch.
//!
//! The whole step is specified by [`parser_step`], a function from the
//! parser's model and one character to the next model and the emitted
//! chunk; [`Parser::read_char`] returns exactly what it denotes.

use vstd::prelude::*;

use crate::decode::{
    decode_header, decode_meta, decode_row, head_region, lemma_row_region_distinct, meta_region,
    row_region,
};
use crate::scanner::{
    abs_wf, lemma_scan_next_wf, scan_event, scan_next, AbsBase, AbsScanner, ScanEvent,
    ScannerState,
};
use crate::sparql::{
    lemma_binding_deep_view_is_view, row_keys_distinct, Binding, Header, Meta, RowModel,
};

verus! {

broadcast use lemma_binding_deep_view_is_view;

/// The kind of a region whose text failed to decode.
#[derive(Debug, Clone, Copy, PartialEq, Eq, Structural)]
pub enum RegionKind {
    Head,
    Row,
    Meta,
}

/// A just-closed region's text failed schema decoding.  Fatal: the stream
/// must not be fed further.
#[derive(Debug, Clone, Copy, PartialEq, Eq, Structural)]
pub struct MalformedRegion {
    pub kind: RegionKind,
}

/// What a stream that ended early was missing: the structurally mandatory
/// header, or only the optional trailing metadata.
#[derive(Debug, Clone, Copy, PartialEq, Eq, Structural)]
pub enum IncompleteStream {
    MissingHeader,
    MissingMeta,
}

/// One chunk handed to the caller.
#[derive(Debug, Clone, PartialEq, Eq)]
pub enum PartialResult {
    Header(Header),
    Bindings(Vec<Binding>),
    Meta(Meta),
}

/// Model of a chunk.
#[verifier::ext_equal]
pub enum ChunkModel {
    Header(Seq<Seq<char>>),
    Bindings(Seq<RowModel>),
    Meta(Meta),
}

impl View for PartialResult {
    type V = ChunkModel;

    open spec fn view(&self) -> ChunkModel {
        match self {
            PartialResult::Header(h) => ChunkModel::Header(h@),
            PartialResult::Bindings(bs) => ChunkModel::Bindings(bs.deep_view()),
            PartialResult::Meta(m) => ChunkModel::Meta(*m),
        }
    }
}

/// Model of the parser: the scanner state, the open region's text, every
/// row decoded so far, the retained rows not yet emitted, the rows already
/// emitted in batches, and the construction parameters.
#[verifier::ext_equal]
pub struct AbsParser {
    pub scanner: AbsScanner,
    pub buffer: Seq<char>,
    pub rows: Seq<RowModel>,
    pub pending: Seq<RowModel>,
    pub emitted: Seq<RowModel>,
    pub batch_size: nat,
    pub offset: nat,
    pub limit: Option<nat>,
}

/// `n` saturated at the machine's word size; the row index is counted in
/// a machine word and stops there.
pub open spec fn sat(n: nat) -> nat {
    if n >= usize::MAX as nat {
        usize::MAX as nat
    } else {
        n
    }
}

/// Whether the row with 1-based index `n` is retained under pagination:
/// the first `offset` rows are dropped, and with a limit only the next
/// `limit` rows are kept (a limit of zero keeps none).
pub open spec fn kept_index(n: nat, offset: nat, limit: Option<nat>) -> bool {
    n > offset && (limit matches Some(l) ==> n - offset <= l)
}

/// The rows of `rows` that pagination retains, in order.
pub open spec fn kept_rows(rows: Seq<RowModel>, offset: nat, limit: Option<nat>) -> Seq<RowModel>
    decreases rows.len(),
{
    if rows.len() == 0 {
        Seq::empty()
    } else {
        let prefix = kept_rows(rows.drop_last(), offset, limit);
        if kept_index(sat(rows.len()), offset, limit) {
            prefix.push(rows.last())
        } else {
            prefix
        }
    }
}

/// The parser invariant: a batch holds at least one row, the scanner is
/// well-formed, fewer rows are pending than fill one batch, every decoded
/// row has distinct variable names, and the emitted rows followed by the
/// pending ones are exactly the retained rows, in order.
pub open spec fn abs_inv(p: AbsParser) -> bool {
    &&& p.batch_size >= 1
    &&& abs_wf(p.scanner)
    &&& p.pending.len() < p.batch_size
    &&& p.emitted + p.pending == kept_rows(p.rows, p.offset, p.limit)
    &&& forall|i: int| 0 <= i < p.rows.len() ==> row_keys_distinct(#[trigger] p.rows[i])
}

/// One step of the parser on character `c`: the next model, and the chunk
/// emitted or the decode failure raised.
pub open spec fn parser_step(p: AbsParser, c: char) -> (AbsParser, Result<
    Option<ChunkModel>,
    MalformedRegion,
>) {
    let sc = scan_next(p.scanner, c);
    let buf = p.buffer.push(c);
    match scan_event(p.scanner, c) {
        ScanEvent::Nothing => (AbsParser { scanner: sc, buffer: buf, ..p }, Ok(None)),
        ScanEvent::HeadClosed => {
            let t = buf.push('}');
            match head_region(t) {
                Some(h) => (
                    AbsParser { scanner: sc, buffer: t, ..p },
                    Ok(Some(ChunkModel::Header(h))),
                ),
                None => (
                    AbsParser { scanner: sc, buffer: t, ..p },
                    Err(MalformedRegion { kind: RegionKind::Head }),
                ),
            }
        },
        ScanEvent::BindingsStarted => (
            AbsParser { scanner: sc, buffer: Seq::empty(), ..p },
            Ok(None),
        ),
        ScanEvent::RowStarted => (AbsParser { scanner: sc, buffer: seq!['{'], ..p }, Ok(None)),
        ScanEvent::RowClosed => {
            match row_region(buf) {
                Some(r) => {
                    let rows2 = p.rows.push(r);
                    if kept_index(sat(rows2.len()), p.offset, p.limit) {
                        let pend2 = p.pending.push(r);
                        if pend2.len() == p.batch_size {
                            (
                                AbsParser {
                                    scanner: sc,
                                    buffer: buf,
                                    rows: rows2,
                                    pending: Seq::empty(),
                                    emitted: p.emitted + pend2,
                                    ..p
                                },
                                Ok(Some(ChunkModel::Bindings(pend2))),
                            )
                        } else {
                            (
                                AbsParser { scanner: sc, buffer: buf, rows: rows2, pending: pend2, ..p },
                                Ok(None),
                            )
                        }
                    } else {
                        (AbsParser { scanner: sc, buffer: buf, rows: rows2, ..p }, Ok(None))
                    }
                },
                None => (
                    AbsParser { scanner: sc, buffer: buf, ..p },
                    Err(MalformedRegion { kind: RegionKind::Row }),
                ),
            }
        },
        ScanEvent::MetaStarted => (AbsParser { scanner: sc, buffer: seq!['{'], ..p }, Ok(None)),
        ScanEvent::MetaClosed => {
            match meta_region(buf) {
                Some(m) => (
                    AbsParser { scanner: sc, buffer: buf, ..p },
                    Ok(Some(ChunkModel::Meta(m))),
                ),
                None => (
                    AbsParser { scanner: sc, buffer: buf, ..p },
                    Err(MalformedRegion { kind: RegionKind::Meta }),
                ),
            }
        },
    }
}

/// The model a freshly constructed parser starts in.
pub open spec fn abs_init(batch_size: nat, offset: nat, limit: Option<nat>) -> AbsParser {
    AbsParser {
        scanner: AbsScanner { base: AbsBase::ReadingHead, in_string: false, escaped: false },
        buffer: Seq::empty(),
        rows: Seq::empty(),
        pending: Seq::empty(),
        emitted: Seq::empty(),
        batch_size: batch_size,
        offset: offset,
        limit: limit,
    }
}

/// The result of `read_char`, as a model.
pub open spec fn chunk_of(r: Result<Option<PartialResult>, MalformedRegion>) -> Result<
    Option<ChunkModel>,
    MalformedRegion,
> {
    match r {
        Ok(Some(pr)) => Ok(Some(pr@)),
        Ok(None) => Ok(None),
        Err(e) => Err(e),
    }
}

/// The incremental parser over one input stream.  Constructed with a
/// fixed batch size (and optional pagination), fed one character at a
/// time, and drained by one final flush.
pub struct Parser {
    scanner_state: ScannerState,
    input_buffer: Vec<char>,
    binding_buffer: Vec<Binding>,
    batch_size: usize,
    offset: usize,
    limit: Option<usize>,
    rows_seen: usize,
    rows_log: Ghost<Seq<RowModel>>,
    emitted_log: Ghost<Seq<RowModel>>,
}

impl View for Parser {
    type V = AbsParser;

    closed spec fn view(&self) -> AbsParser {
        AbsParser {
            scanner: self.scanner_state@,
            buffer: self.input_buffer@,
            rows: self.rows_log@,
            pending: self.binding_buffer.deep_view(),
            emitted: self.emitted_log@,
            batch_size: self.batch_size as nat,
            offset: self.offset as nat,
            limit: match self.limit {
                Some(l) => Some(l as nat),
                None => None,
            },
        }
    }
}

impl Parser {
    /// The parser is well-formed: its model satisfies the invariant, the
    /// saturated row counter matches the decoded rows, and a row's depth
    /// never exceeds the buffered text.
    pub closed spec fn wf(&self) -> bool {
        &&& abs_inv(self@)
        &&& self.rows_seen as nat == sat(self.rows_log@.len())
        &&& (self.scanner_state@.base matches AbsBase::ReadingBinding(d) ==> d
            <= self.input_buffer@.len())
    }

    /// A new parser that will emit rows in batches of `batch_size`,
    /// without pagination.
    pub fn new(batch_size: usize) -> (r: Parser)
        requires
            batch_size >= 1,
        ensures
            r.wf(),
            r@ == abs_init(batch_size as nat, 0, Option::<nat>::None),
    {
        Parser::new_with_pagination(batch_size, 0, None)
    }

    /// A new parser that skips the first `offset` retained rows and, with
    /// a limit, keeps at most `limit` rows after that.
    pub fn new_with_pagination(batch_size: usize, offset: usize, limit: Option<usize>) -> (r:
        Parser)
        requires
            batch_size >= 1,
        ensures
            r.wf(),
            r@ == abs_init(
                batch_size as nat,
                offset as nat,
                match limit {
                    Some(l) => Some(l as nat),
                    None => None,
                },
            ),
    {
        let r = Parser {
            scanner_state: ScannerState::init(),
            input_buffer: Vec::new(),
            binding_buffer: Vec::new(),
            batch_size,
            offset,
            limit,
            rows_seen: 0,
            rows_log: Ghost(Seq::empty()),
            emitted_log: Ghost(Seq::empty()),
        };
        proof {
            assert(r.binding_buffer.deep_view() =~= Seq::<RowModel>::empty());
            assert(r@ =~= abs_init(
                batch_size as nat,
                offset as nat,
                match limit {
                    Some(l) => Some(l as nat),
                    None => None,
                },
            ));
        }
        r
    }

    /// Feeds one character.  Returns the chunk this character completed,
    /// if any; a region that fails to decode is a fatal error, and the
    /// stream must not be fed further.
    pub fn read_char(&mut self, chr: char) -> (r: Result<Option<PartialResult>, MalformedRegion>)
        requires
            old(self).wf(),
        ensures
            final(self).wf(),
            abs_inv(final(self)@),
            final(self)@ == parser_step(old(self)@, chr).0,
            chunk_of(r) == parser_step(old(self)@, chr).1,
    {
        let ghost pre = self@;
        self.input_buffer.push(chr);
        let n = self.input_buffer.len();
        let ev = self.scanner_state.step(chr);
        match ev {
            ScanEvent::Nothing => {
                proof {
                    assert(self@ =~= parser_step(pre, chr).0);
                }
                Ok(None)
            },
            ScanEvent::HeadClosed => {
                self.input_buffer.push('}');
                proof {
                    assert(self.input_buffer@ =~= pre.buffer.push(chr).push('}'));
                }
                match decode_header(&self.input_buffer) {
                    Some(h) => {
                        proof {
                            assert(self@ =~= parser_step(pre, chr).0);
                        }
                        Ok(Some(PartialResult::Header(h)))
                    },
                    None => {
                        proof {
                            assert(self@ =~= parser_step(pre, chr).0);
                        }
                        Err(MalformedRegion { kind: RegionKind::Head })
                    },
                }
            },
            ScanEvent::BindingsStarted => {
                self.input_buffer = Vec::new();
                proof {
                    assert(self@ =~= parser_step(pre, chr).0);
                }
                Ok(None)
            },
            ScanEvent::RowStarted => {
                self.input_buffer = Vec::new();
                self.input_buffer.push('{');
                proof {
                    assert(self.input_buffer@ =~= seq!['{']);
                    assert(self@ =~= parser_step(pre, chr).0);
                }
                Ok(None)
            },
            ScanEvent::RowClosed => {
                match decode_row(&self.input_buffer) {
                    Some(b) => {
                        proof {
                            assert(self.rows_log@.push(b@).drop_last() =~= self.rows_log@);
                        }
                        self.rows_log = Ghost(self.rows_log@.push(b@));
                        if self.rows_seen < usize::MAX {
                            self.rows_seen = self.rows_seen + 1;
                        }
                        let keep = self.rows_seen > self.offset && (match self.limit {
                            Some(l) => self.rows_seen - self.offset <= l,
                            None => true,
                        });
                        proof {
                            assert(self.rows_seen as nat == sat(self.rows_log@.len()));
                            assert(keep == kept_index(
                                sat(self.rows_log@.len()),
                                pre.offset,
                                pre.limit,
                            ));
                            assert(kept_rows(self.rows_log@, pre.offset, pre.limit) == (if keep {
                                kept_rows(pre.rows, pre.offset, pre.limit).push(b@)
                            } else {
                                kept_rows(pre.rows, pre.offset, pre.limit)
                            }));
                        }
                        if keep {
                            self.binding_buffer.push(b);
                            proof {
                                assert forall|i: int|
                                    0 <= i < self.binding_buffer@.len() implies #[trigger] self
                                    .binding_buffer
                                    .deep_view()[i] == pre.pending.push(b@)[i] by {
                                    assert(self.binding_buffer.deep_view()[i] == self
                                        .binding_buffer@[i].deep_view());
                                    if i < pre.pending.len() {
                                        assert(self.binding_buffer@[i] == old(
                                            self,
                                        ).binding_buffer@[i]);
                                        assert(pre.pending[i] == old(
                                            self,
                                        ).binding_buffer@[i].deep_view());
                                    }
                                }
                                assert(self.binding_buffer.deep_view() =~= pre.pending.push(b@));
                            }
                            if self.binding_buffer.len() == self.batch_size {
                                let mut out: Vec<Binding> = Vec::new();
                                core::mem::swap(&mut out, &mut self.binding_buffer);
                                self.emitted_log = Ghost(self.emitted_log@ + out.deep_view());
                                proof {
                                    assert(self.binding_buffer.deep_view() =~= Seq::<
                                        RowModel,
                                    >::empty());
                                    assert(self.emitted_log@ + self.binding_buffer.deep_view()
                                        =~= self.emitted_log@);
                                    assert(pre.emitted + pre.pending.push(b@) =~= (pre.emitted
                                        + pre.pending).push(b@));
                                    assert(self@ =~= parser_step(pre, chr).0);
                                }
                                Ok(Some(PartialResult::Bindings(out)))
                            } else {
                                proof {
                                    assert(pre.emitted + pre.pending.push(b@) =~= (pre.emitted
                                        + pre.pending).push(b@));
                                    assert(self@ =~= parser_step(pre, chr).0);
                                }
                                Ok(None)
                            }
                        } else {
                            proof {
                                assert(self@ =~= parser_step(pre, chr).0);
                            }
                            Ok(None)
                        }
                    },
                    None => {
                        proof {
                            assert(self@ =~= parser_step(pre, chr).0);
                        }
                        Err(MalformedRegion { kind: RegionKind::Row })
                    },
                }
            },
            ScanEvent::MetaStarted => {
                self.input_buffer = Vec::new();
                self.input_buffer.push('{');
                proof {
                    assert(self.input_buffer@ =~= seq!['{']);
                    assert(self@ =~= parser_step(pre, chr).0);
                }
                Ok(None)
            },
            ScanEvent::MetaClosed => {
                match decode_meta(&self.input_buffer) {
                    Some(m) => {
                        proof {
                            assert(self@ =~= parser_step(pre, chr).0);
                        }
                        Ok(Some(PartialResult::Meta(m)))
                    },
                    None => {
                        proof {
                            assert(self@ =~= parser_step(pre, chr).0);
                        }
                        Err(MalformedRegion { kind: RegionKind::Meta })
                    },
                }
            },
        }
    }

    /// Hands out the retained rows that no full batch has carried yet,
    /// consuming the parser: one final partial batch, or nothing when no
    /// row remains.  Consuming `self` makes a second flush unwritable.
    pub fn flush(self) -> (r: Option<PartialResult>)
        requires
            self.wf(),
        ensures
            match r {
                Some(pr) => 0 < self@.pending.len() < self@.batch_size && pr@
                    == ChunkModel::Bindings(self@.pending),
                None => self@.pending.len() == 0,
            },
    {
        if self.binding_buffer.len() > 0 {
            Some(PartialResult::Bindings(self.binding_buffer))
        } else {
            proof {
                assert(self.binding_buffer.deep_view() =~= Seq::<RowModel>::empty());
            }
            None
        }
    }

    /// Where an ended stream stands: complete once the meta region has
    /// closed, otherwise missing the mandatory header if the head region
    /// never closed, and only the optional metadata after that.
    pub fn completion(&self) -> (r: Option<IncompleteStream>)
        ensures
            r == (if self@.scanner.base is Done {
                Option::<IncompleteStream>::None
            } else if self@.scanner.base is ReadingHead {
                Some(IncompleteStream::MissingHeader)
            } else {
                Some(IncompleteStream::MissingMeta)
            }),
    {
        if self.scanner_state.is_done() {
            None
        } else if self.scanner_state.in_head() {
            Some(IncompleteStream::MissingHeader)
        } else {
            Some(IncompleteStream::MissingMeta)
        }
    }
}

/// A fresh parser satisfies the invariant.
pub proof fn lemma_init_inv(batch_size: nat, offset: nat, limit: Option<nat>)
    requires
        batch_size >= 1,
    ensures
        abs_inv(abs_init(batch_size, offset, limit)),
{
    assert(Seq::<RowModel>::empty() + Seq::<RowModel>::empty() =~= kept_rows(
        Seq::empty(),
        offset,
        limit,
    ));
}

/// One step keeps the invariant, whatever the character.
pub proof fn lemma_step_preserves_inv(p: AbsParser, c: char)
    requires
        abs_inv(p),
    ensures
        abs_inv(parser_step(p, c).0),
{
    lemma_scan_next_wf(p.scanner, c);
    let q = parser_step(p, c).0;
    if scan_event(p.scanner, c) is RowClosed {
        let buf = p.buffer.push(c);
        match row_region(buf) {
            Some(r) => {
                lemma_row_region_distinct(buf);
                let rows2 = p.rows.push(r);
                assert(rows2.drop_last() =~= p.rows);
                assert forall|i: int| 0 <= i < rows2.len() implies row_keys_distinct(
                    #[trigger] rows2[i],
                ) by {
                    if i < p.rows.len() {
                        assert(rows2[i] == p.rows[i]);
                    }
                }
                if kept_index(sat(rows2.len()), p.offset, p.limit) {
                    let pend2 = p.pending.push(r);
                    assert(p.emitted + pend2 =~= (p.emitted + p.pending).push(r));
                    if pend2.len() == p.batch_size {
                        assert(q.emitted + q.pending =~= p.emitted + pend2);
                    }
                }
            },
            None => {},
        }
    }
}

/// The parser's model after running a whole character sequence.
pub open spec fn run_steps(p: AbsParser, cs: Seq<char>) -> AbsParser
    decreases cs.len(),
{
    if cs.len() == 0 {
        p
    } else {
        run_steps(parser_step(p, cs.first()).0, cs.drop_first())
    }
}

/// The invariant holds in every state a run can reach.
pub proof fn lemma_run_preserves_inv(p: AbsParser, cs: Seq<char>)
    requires
        abs_inv(p),
    ensures
        abs_inv(run_steps(p, cs)),
    decreases cs.len(),
{
    if cs.len() > 0 {
        lemma_step_preserves_inv(p, cs.first());
        lemma_run_preserves_inv(parser_step(p, cs.first()).0, cs.drop_first());
    }
}

/// Run a fresh parser over any input, however chunked: the rows its full
/// batches carried, followed by those a flush would still hand out, are
/// exactly the rows pagination retained of every row decoded, in order —
/// batching loses, duplicates and reorders nothing.
pub proof fn lemma_stream_reproduces_rows(
    batch_size: nat,
    offset: nat,
    limit: Option<nat>,
    cs: Seq<char>,
)
    requires
        batch_size >= 1,
    ensures
        ({
            let p = run_steps(abs_init(batch_size, offset, limit), cs);
            p.emitted + p.pending == kept_rows(p.rows, p.offset, p.limit)
        }),
{
    lemma_init_inv(batch_size, offset, limit);
    lemma_run_preserves_inv(abs_init(batch_size, offset, limit), cs);
}

/// Concatenating every emitted batch and the pending rows reproduces, in
/// order, exactly the rows pagination retained of the rows decoded so
/// far: batching loses, duplicates and reorders nothing.
pub proof fn lemma_batches_reproduce_rows(p: AbsParser)
    requires
        abs_inv(p),
    ensures
        p.emitted + p.pending == kept_rows(p.rows, p.offset, p.limit),
{
}

/// Every batch a step emits is full: its length is exactly the batch
/// size.  Only the final flush may carry fewer rows.
pub proof fn lemma_emitted_batches_full(p: AbsParser, c: char)
    requires
        abs_inv(p),
    ensures
        parser_step(p, c).1 matches Ok(Some(ChunkModel::Bindings(b))) ==> b.len() == p.batch_size,
{
}

/// Smallest of two naturals.
pub open spec fn min_nat(a: nat, b: nat) -> nat {
    if a <= b {
        a
    } else {
        b
    }
}

/// The pagination window: the retained rows are exactly the slice of the
/// decoded rows from `offset` to `offset + limit` (to the end without a
/// limit).  So their number is `min(total - offset, limit)` — zero when
/// `offset` covers the whole input — and the first retained row is the
/// `offset + 1`-th decoded row.
pub proof fn lemma_pagination_window(rows: Seq<RowModel>, offset: nat, limit: Option<nat>)
    requires
        rows.len() <= usize::MAX as nat,
    ensures
        kept_rows(rows, offset, limit) == rows.subrange(
            min_nat(offset, rows.len()) as int,
            match limit {
                Some(l) => min_nat(offset + l, rows.len()) as int,
                None => rows.len() as int,
            },
        ),
        kept_rows(rows, offset, limit).len() > 0 ==> kept_rows(rows, offset, limit)[0] == rows[
            offset as int
        ],
    decreases rows.len(),
{
    let lo = min_nat(offset, rows.len()) as int;
    let hi = match limit {
        Some(l) => min_nat(offset + l, rows.len()) as int,
        None => rows.len() as int,
    };
    if rows.len() == 0 {
        assert(kept_rows(rows, offset, limit) =~= rows.subrange(lo, hi));
    } else {
        let head = rows.drop_last();
        lemma_pagination_window(head, offset, limit);
        assert(sat(rows.len()) == rows.len());
        if kept_index(rows.len(), offset, limit) {
            assert(kept_rows(rows, offset, limit) == kept_rows(head, offset, limit).push(
                rows.last(),
            ));
            assert(kept_rows(rows, offset, limit) =~= rows.subrange(lo, hi));
        } else {
            assert(kept_rows(rows, offset, limit) =~= rows.subrange(lo, hi));
        }
    }
}

} // verus!
