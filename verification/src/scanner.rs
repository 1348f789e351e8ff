//! The scanner: a character-driven finite-state automaton that segments
//! the incoming stream into regions (head, one row, meta) and signals when
//! a region has just closed.  It never fails; whether a closed region's
//! text is meaningful is the decoder's concern.
//!
//! Quoting never nests, so the suspended state of an open string is kept
//! as a flat (base, in_string, escaped) triple rather than a stack.

use vstd::prelude::*;

verus! {

/// Where the scanner stands in the document, outside any quoted string.
/// The depth of a row counts its unmatched opening braces, starting at 1.
#[derive(Debug, Clone, Copy, PartialEq, Eq)]
pub enum BaseState {
    ReadingHead,
    SearchingBindingsArray,
    SearchingBinding,
    ReadingBinding(usize),
    SearchingMeta,
    ReadingMeta,
    Done,
}

/// Abstract base state: the same positions with an unbounded depth.
pub enum AbsBase {
    ReadingHead,
    SearchingBindingsArray,
    SearchingBinding,
    ReadingBinding(nat),
    SearchingMeta,
    ReadingMeta,
    Done,
}

/// Abstract scanner state.
#[verifier::ext_equal]
pub struct AbsScanner {
    pub base: AbsBase,
    pub in_string: bool,
    pub escaped: bool,
}

/// What one character made the scanner do to the current region.
#[derive(Debug, Clone, Copy, PartialEq, Eq, Structural)]
pub enum ScanEvent {
    /// No region boundary.
    Nothing,
    /// The head region just closed.
    HeadClosed,
    /// The bindings array just opened: the region buffer restarts empty.
    BindingsStarted,
    /// A row region just opened: the region buffer restarts at its brace.
    RowStarted,
    /// A row region just closed.
    RowClosed,
    /// The meta region just opened: the region buffer restarts at its brace.
    MetaStarted,
    /// The meta region just closed.
    MetaClosed,
}

/// A well-formed scanner state: escape handling only inside a string,
/// strings only inside the head or a row, row depth at least 1.
pub open spec fn abs_wf(a: AbsScanner) -> bool {
    &&& a.escaped ==> a.in_string
    &&& a.in_string ==> (a.base is ReadingHead || a.base is ReadingBinding)
    &&& a.base matches AbsBase::ReadingBinding(d) ==> d >= 1
}

/// The transition function of the automaton: the state after one
/// character.  Total: every (state, character) pair has a successor.
pub open spec fn scan_next(a: AbsScanner, c: char) -> AbsScanner {
    if a.escaped {
        AbsScanner { escaped: false, ..a }
    } else if a.in_string {
        if c == '"' {
            AbsScanner { in_string: false, ..a }
        } else if c == '\\' {
            AbsScanner { escaped: true, ..a }
        } else {
            a
        }
    } else {
        match a.base {
            AbsBase::ReadingHead => {
                if c == '}' {
                    AbsScanner { base: AbsBase::SearchingBindingsArray, ..a }
                } else if c == '"' {
                    AbsScanner { in_string: true, ..a }
                } else {
                    a
                }
            },
            AbsBase::SearchingBindingsArray => {
                if c == '[' {
                    AbsScanner { base: AbsBase::SearchingBinding, ..a }
                } else {
                    a
                }
            },
            AbsBase::SearchingBinding => {
                if c == '{' {
                    AbsScanner { base: AbsBase::ReadingBinding(1), ..a }
                } else if c == ']' {
                    AbsScanner { base: AbsBase::SearchingMeta, ..a }
                } else {
                    a
                }
            },
            AbsBase::ReadingBinding(d) => {
                if c == '{' {
                    AbsScanner { base: AbsBase::ReadingBinding((d + 1) as nat), ..a }
                } else if c == '}' {
                    if d == 1 {
                        AbsScanner { base: AbsBase::SearchingBinding, ..a }
                    } else {
                        AbsScanner { base: AbsBase::ReadingBinding((d - 1) as nat), ..a }
                    }
                } else if c == '"' {
                    AbsScanner { in_string: true, ..a }
                } else {
                    a
                }
            },
            AbsBase::SearchingMeta => {
                if c == '{' {
                    AbsScanner { base: AbsBase::ReadingMeta, ..a }
                } else {
                    a
                }
            },
            AbsBase::ReadingMeta => {
                if c == '}' {
                    AbsScanner { base: AbsBase::Done, ..a }
                } else {
                    a
                }
            },
            AbsBase::Done => a,
        }
    }
}

/// The boundary event one character causes.
pub open spec fn scan_event(a: AbsScanner, c: char) -> ScanEvent {
    if a.escaped || a.in_string {
        ScanEvent::Nothing
    } else {
        match a.base {
            AbsBase::ReadingHead => if c == '}' {
                ScanEvent::HeadClosed
            } else {
                ScanEvent::Nothing
            },
            AbsBase::SearchingBindingsArray => if c == '[' {
                ScanEvent::BindingsStarted
            } else {
                ScanEvent::Nothing
            },
            AbsBase::SearchingBinding => if c == '{' {
                ScanEvent::RowStarted
            } else {
                ScanEvent::Nothing
            },
            AbsBase::ReadingBinding(d) => if c == '}' && d == 1 {
                ScanEvent::RowClosed
            } else {
                ScanEvent::Nothing
            },
            AbsBase::SearchingMeta => if c == '{' {
                ScanEvent::MetaStarted
            } else {
                ScanEvent::Nothing
            },
            AbsBase::ReadingMeta => if c == '}' {
                ScanEvent::MetaClosed
            } else {
                ScanEvent::Nothing
            },
            AbsBase::Done => ScanEvent::Nothing,
        }
    }
}

/// A step from a well-formed state stays well-formed.
pub proof fn lemma_scan_next_wf(a: AbsScanner, c: char)
    requires
        abs_wf(a),
    ensures
        abs_wf(scan_next(a, c)),
{
}

/// A character fed while a quoted string is open is never structural: it
/// raises no boundary event and leaves the base state (and so the open
/// region) unchanged; right after a backslash even a quote stays inside
/// the string.
pub proof fn lemma_string_chars_not_structural(a: AbsScanner, c: char)
    requires
        abs_wf(a),
        a.in_string,
    ensures
        scan_event(a, c) == ScanEvent::Nothing,
        scan_next(a, c).base == a.base,
        a.escaped ==> scan_next(a, c).in_string,
{
}

/// The scanner's concrete state.
#[derive(Debug, Clone, PartialEq, Eq)]
pub struct ScannerState {
    base: BaseState,
    in_string: bool,
    escaped: bool,
}

impl View for ScannerState {
    type V = AbsScanner;

    closed spec fn view(&self) -> AbsScanner {
        AbsScanner {
            base: match self.base {
                BaseState::ReadingHead => AbsBase::ReadingHead,
                BaseState::SearchingBindingsArray => AbsBase::SearchingBindingsArray,
                BaseState::SearchingBinding => AbsBase::SearchingBinding,
                BaseState::ReadingBinding(d) => AbsBase::ReadingBinding(d as nat),
                BaseState::SearchingMeta => AbsBase::SearchingMeta,
                BaseState::ReadingMeta => AbsBase::ReadingMeta,
                BaseState::Done => AbsBase::Done,
            },
            in_string: self.in_string,
            escaped: self.escaped,
        }
    }
}

impl ScannerState {
    /// A well-formed state whose row depth also fits the machine.
    pub open spec fn wf(&self) -> bool {
        abs_wf(self@)
    }

    /// The state a fresh scanner starts in: reading the head region.
    pub fn init() -> (r: ScannerState)
        ensures
            r@ == (AbsScanner { base: AbsBase::ReadingHead, in_string: false, escaped: false }),
            r.wf(),
    {
        ScannerState { base: BaseState::ReadingHead, in_string: false, escaped: false }
    }

    /// Whether the scanner has consumed the whole document.
    pub fn is_done(&self) -> (r: bool)
        ensures
            r == (self@.base is Done),
    {
        match self.base {
            BaseState::Done => true,
            _ => false,
        }
    }

    /// Whether the scanner is still inside the head region.
    pub fn in_head(&self) -> (r: bool)
        ensures
            r == (self@.base is ReadingHead),
    {
        match self.base {
            BaseState::ReadingHead => true,
            _ => false,
        }
    }

    /// Feeds one character: advances the automaton and reports the
    /// boundary event it caused.
    pub fn step(&mut self, c: char) -> (ev: ScanEvent)
        requires
            old(self).wf(),
            old(self)@.base matches AbsBase::ReadingBinding(d) ==> d < usize::MAX,
        ensures
            final(self)@ == scan_next(old(self)@, c),
            ev == scan_event(old(self)@, c),
            final(self).wf(),
    {
        proof {
            lemma_scan_next_wf(old(self)@, c);
        }
        if self.escaped {
            self.escaped = false;
            return ScanEvent::Nothing;
        }
        if self.in_string {
            if c == '"' {
                self.in_string = false;
            } else if c == '\\' {
                self.escaped = true;
            }
            return ScanEvent::Nothing;
        }
        match self.base {
            BaseState::ReadingHead => {
                if c == '}' {
                    self.base = BaseState::SearchingBindingsArray;
                    ScanEvent::HeadClosed
                } else if c == '"' {
                    self.in_string = true;
                    ScanEvent::Nothing
                } else {
                    ScanEvent::Nothing
                }
            },
            BaseState::SearchingBindingsArray => {
                if c == '[' {
                    self.base = BaseState::SearchingBinding;
                    ScanEvent::BindingsStarted
                } else {
                    ScanEvent::Nothing
                }
            },
            BaseState::SearchingBinding => {
                if c == '{' {
                    self.base = BaseState::ReadingBinding(1);
                    ScanEvent::RowStarted
                } else if c == ']' {
                    self.base = BaseState::SearchingMeta;
                    ScanEvent::Nothing
                } else {
                    ScanEvent::Nothing
                }
            },
            BaseState::ReadingBinding(d) => {
                if c == '{' {
                    self.base = BaseState::ReadingBinding(d + 1);
                    ScanEvent::Nothing
                } else if c == '}' {
                    if d == 1 {
                        self.base = BaseState::SearchingBinding;
                        ScanEvent::RowClosed
                    } else {
                        self.base = BaseState::ReadingBinding(d - 1);
                        ScanEvent::Nothing
                    }
                } else if c == '"' {
                    self.in_string = true;
                    ScanEvent::Nothing
                } else {
                    ScanEvent::Nothing
                }
            },
            BaseState::SearchingMeta => {
                if c == '{' {
                    self.base = BaseState::ReadingMeta;
                    ScanEvent::MetaStarted
                } else {
                    ScanEvent::Nothing
                }
            },
            BaseState::ReadingMeta => {
                if c == '}' {
                    self.base = BaseState::Done;
                    ScanEvent::MetaClosed
                } else {
                    ScanEvent::Nothing
                }
            },
            BaseState::Done => ScanEvent::Nothing,
        }
    }
}

} // verus!
