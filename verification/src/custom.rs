//! The free-form log: titled notes with optional relative timestamps.
//!
//! A `Log` is an append-only buffer of `LogElement`s. Each element holds a
//! title, a context text, and — when the buffer's timestamping is on — the
//! instant it was appended, given by the caller as a nanosecond count.
//! Rendering joins one line per element with a newline between lines and
//! no trailing newline.

use crate::render::{
    lemma_count_char_absent, lemma_count_char_concat, lemma_count_char_single,
    lemma_time_stamp_newline_free, push_char,
    spec_count_char, spec_time_stamp, time_stamp_string,
};
use crate::LogError;
use vstd::prelude::*;
use vstd::string::StringExecFns;

verus! {

/// The mathematical content of a `LogElement`: an optional capture
/// instant in nanoseconds and the two text fields.
#[verifier::ext_equal]
pub struct LogElementView {
    pub time_stamp: Option<nat>,
    pub title: Seq<char>,
    pub context: Seq<char>,
}

/// One entry of the free-form log. Immutable once constructed.
pub struct LogElement {
    time_stamp: Option<usize>,
    title: String,
    context: String,
}

impl View for LogElement {
    type V = LogElementView;

    closed spec fn view(&self) -> LogElementView {
        LogElementView {
            time_stamp: match self.time_stamp {
                Some(t) => Some(t as nat),
                None => None,
            },
            title: self.title@,
            context: self.context@,
        }
    }
}

/// An element's capture instant precedes the rendering start instant, so
/// no relative timestamp exists for it.
pub open spec fn spec_skew(e: LogElementView, start: nat) -> bool {
    match e.time_stamp {
        Some(t) => t < start,
        None => false,
    }
}

/// The rendered line for one element: with a capture instant, the
/// bracketed relative timestamp and then title, separator and context,
/// all joined by tabs; without one, just the three fields joined by tabs.
pub open spec fn spec_line(e: LogElementView, sep: char, start: nat) -> Seq<char>
    recommends
        !spec_skew(e, start),
{
    match e.time_stamp {
        Some(t) => seq!['['] + spec_time_stamp((t - start) as nat) + seq![']', '\t'] + e.title
            + seq!['\t', sep, '\t'] + e.context,
        None => e.title + seq!['\t', sep, '\t'] + e.context,
    }
}

impl LogElement {
    /// Create an element with the context given as an owned `String`.
    /// The capture instant is recorded iff `time_stamp_on` holds.
    pub fn new(title: &str, context: String, time_stamp_on: bool, now: usize) -> (e: LogElement)
        ensures
            e@ == (LogElementView {
                time_stamp: if time_stamp_on {
                    Some(now as nat)
                } else {
                    None
                },
                title: title@,
                context: context@,
            }),
    {
        let e = LogElement {
            time_stamp: if time_stamp_on {
                Some(now)
            } else {
                None
            },
            title: title.to_owned(),
            context,
        };
        e
    }

    /// Create an element with the context given as a borrowed `&str`.
    pub fn new_str(title: &str, context: &str, time_stamp_on: bool, now: usize) -> (e: LogElement)
        ensures
            e@ == (LogElementView {
                time_stamp: if time_stamp_on {
                    Some(now as nat)
                } else {
                    None
                },
                title: title@,
                context: context@,
            }),
    {
        LogElement {
            time_stamp: if time_stamp_on {
                Some(now)
            } else {
                None
            },
            title: title.to_owned(),
            context: context.to_owned(),
        }
    }

    /// Render this element as one line, relative to the start instant.
    /// Fails with `ClockSkew` exactly when the element carries a capture
    /// instant earlier than `start`.
    pub fn to_string(&self, seperator: &char, start: usize) -> (r: Result<String, LogError>)
        ensures
            r is Err <==> spec_skew(self@, start as nat),
            r is Err ==> r->Err_0 == LogError::ClockSkew,
            r is Ok ==> r->Ok_0@ == spec_line(self@, *seperator, start as nat),
    {
        match self.time_stamp {
            Some(t) => {
                if t < start {
                    Err(LogError::ClockSkew)
                } else {
                    let elapsed = t - start;
                    let mut s = String::new();
                    push_char(&mut s, '[');
                    let ts = time_stamp_string(elapsed);
                    s.append(ts.as_str());
                    push_char(&mut s, ']');
                    push_char(&mut s, '\t');
                    s.append(self.title.as_str());
                    push_char(&mut s, '\t');
                    push_char(&mut s, *seperator);
                    push_char(&mut s, '\t');
                    s.append(self.context.as_str());
                    proof {
                        assert(s@ =~= spec_line(self@, *seperator, start as nat));
                    }
                    Ok(s)
                }
            },
            None => {
                let mut s = String::new();
                s.append(self.title.as_str());
                push_char(&mut s, '\t');
                push_char(&mut s, *seperator);
                push_char(&mut s, '\t');
                s.append(self.context.as_str());
                proof {
                    assert(s@ =~= spec_line(self@, *seperator, start as nat));
                }
                Ok(s)
            },
        }
    }
}

/// The mathematical content of a `Log`.
#[verifier::ext_equal]
pub struct LogView {
    pub time_stamp: bool,
    pub start_time: nat,
    pub seperator: char,
    pub elements: Seq<LogElementView>,
}

/// The free-form log buffer: configuration fixed at construction plus the
/// append-ordered elements.
pub struct Log {
    time_stamp: bool,
    start_time: usize,
    seperator: char,
    elements: Vec<LogElement>,
}

impl View for Log {
    type V = LogView;

    closed spec fn view(&self) -> LogView {
        LogView {
            time_stamp: self.time_stamp,
            start_time: self.start_time as nat,
            seperator: self.seperator,
            elements: Seq::new(self.elements@.len(), |i: int| self.elements@[i]@),
        }
    }
}

/// Some element of the sequence suffers clock skew against `start`.
pub open spec fn spec_any_skew(elements: Seq<LogElementView>, start: nat) -> bool {
    exists|i: int| 0 <= i < elements.len() && spec_skew(elements[i], start)
}

/// The whole-buffer rendering: the lines of the elements in order, with a
/// newline between consecutive lines and none at the end. An empty
/// sequence renders to the empty text.
pub open spec fn spec_render(elements: Seq<LogElementView>, sep: char, start: nat) -> Seq<char>
    decreases elements.len(),
{
    if elements.len() == 0 {
        Seq::empty()
    } else if elements.len() == 1 {
        spec_line(elements[0], sep, start)
    } else {
        spec_render(elements.drop_last(), sep, start) + seq!['\n'] + spec_line(
            elements.last(),
            sep,
            start,
        )
    }
}

/// Law: appending preserves order — rendering a buffer with one more
/// element yields the previous rendering with the new element's line at
/// the end, behind a newline joiner (or alone, for a first element). No
/// earlier line moves or changes.
pub proof fn lemma_render_appends_last(
    elements: Seq<LogElementView>,
    e: LogElementView,
    sep: char,
    start: nat,
)
    ensures
        spec_render(elements.push(e), sep, start) == if elements.len() == 0 {
            spec_line(e, sep, start)
        } else {
            spec_render(elements, sep, start) + seq!['\n'] + spec_line(e, sep, start)
        },
{
    assert(elements.push(e).drop_last() =~= elements);
    assert(elements.push(e).last() == e);
}

/// Law: an element captured without a timestamp renders with no time
/// field at all: its line is exactly title, separator and context joined
/// by tabs, whatever the start instant.
pub proof fn lemma_untimed_line_has_no_time_field(e: LogElementView, sep: char, start: nat)
    requires
        e.time_stamp is None,
    ensures
        spec_line(e, sep, start) == e.title + seq!['\t', sep, '\t'] + e.context,
{
}

/// The element's text fields and the separator are free of newlines, so
/// its rendered line is a single segment.
pub open spec fn spec_line_clean(e: LogElementView, sep: char) -> bool {
    &&& spec_count_char(e.title, '\n') == 0
    &&& spec_count_char(e.context, '\n') == 0
    &&& sep != '\n'
}

/// A clean element renders to a line without any newline in it.
pub proof fn lemma_line_newline_free(e: LogElementView, sep: char, start: nat)
    requires
        spec_line_clean(e, sep),
    ensures
        spec_count_char(spec_line(e, sep, start), '\n') == 0,
{
    let tabs = seq!['\t', sep, '\t'];
    lemma_count_char_absent(tabs, '\n');
    match e.time_stamp {
        Some(t) => {
            let open_bracket = seq!['['];
            let close_bracket = seq![']', '\t'];
            let ts = spec_time_stamp((t - start) as nat);
            lemma_count_char_absent(open_bracket, '\n');
            lemma_count_char_absent(close_bracket, '\n');
            lemma_time_stamp_newline_free((t - start) as nat);
            lemma_count_char_concat(open_bracket, ts, '\n');
            lemma_count_char_concat(open_bracket + ts, close_bracket, '\n');
            lemma_count_char_concat(open_bracket + ts + close_bracket, e.title, '\n');
            lemma_count_char_concat(open_bracket + ts + close_bracket + e.title, tabs, '\n');
            lemma_count_char_concat(
                open_bracket + ts + close_bracket + e.title + tabs,
                e.context,
                '\n',
            );
        },
        None => {
            lemma_count_char_concat(e.title, tabs, '\n');
            lemma_count_char_concat(e.title + tabs, e.context, '\n');
        },
    }
}

/// Law: when every appended element is clean, the rendered buffer text
/// holds exactly one newline joiner between consecutive lines and none at
/// the end: its newline count is one less than the number of elements
/// (zero for an empty buffer).
pub proof fn lemma_render_newline_count(elements: Seq<LogElementView>, sep: char, start: nat)
    requires
        forall|i: int| 0 <= i < elements.len() ==> spec_line_clean(#[trigger] elements[i], sep),
    ensures
        spec_count_char(spec_render(elements, sep, start), '\n') == if elements.len() == 0 {
            0int
        } else {
            elements.len() - 1
        },
    decreases elements.len(),
{
    if elements.len() == 0 {
    } else if elements.len() == 1 {
        lemma_line_newline_free(elements[0], sep, start);
    } else {
        let front = elements.drop_last();
        let line = spec_line(elements.last(), sep, start);
        assert forall|i: int| 0 <= i < front.len() implies spec_line_clean(
            #[trigger] front[i],
            sep,
        ) by {
            assert(front[i] == elements[i]);
        }
        lemma_render_newline_count(front, sep, start);
        lemma_line_newline_free(elements.last(), sep, start);
        lemma_count_char_single('\n');
        lemma_count_char_concat(spec_render(front, sep, start), seq!['\n'], '\n');
        lemma_count_char_concat(spec_render(front, sep, start) + seq!['\n'], line, '\n');
    }
}

impl Log {
    /// Create an empty log. `start_time` is the instant all rendered
    /// timestamps are measured from; `time_stamp_on` decides whether
    /// appended elements capture their instant.
    pub fn new(time_stamp_on: bool, seperate: char, start_time: usize) -> (log: Log)
        ensures
            log@ == (LogView {
                time_stamp: time_stamp_on,
                start_time: start_time as nat,
                seperator: seperate,
                elements: Seq::<LogElementView>::empty(),
            }),
    {
        let log = Log {
            time_stamp: time_stamp_on,
            start_time,
            seperator: seperate,
            elements: Vec::new(),
        };
        proof {
            assert(log@ =~= (LogView {
                time_stamp: time_stamp_on,
                start_time: start_time as nat,
                seperator: seperate,
                elements: Seq::<LogElementView>::empty(),
            }));
        }
        log
    }

    /// Append an element with an owned context, captured at `now` iff
    /// this log timestamps. Everything already appended stays as it was.
    pub fn add(&mut self, titel: &str, context: String, now: usize)
        ensures
            final(self)@ == (LogView {
                elements: old(self)@.elements.push(
                    LogElementView {
                        time_stamp: if old(self)@.time_stamp {
                            Some(now as nat)
                        } else {
                            None
                        },
                        title: titel@,
                        context: context@,
                    },
                ),
                ..old(self)@
            }),
    {
        let element = LogElement::new(titel, context, self.time_stamp, now);
        self.elements.push(element);
        proof {
            assert(self@ =~= (LogView {
                elements: old(self)@.elements.push(element@),
                ..old(self)@
            }));
        }
    }

    /// Append an element with a borrowed context, captured at `now` iff
    /// this log timestamps.
    pub fn add_str(&mut self, titel: &str, context: &str, now: usize)
        ensures
            final(self)@ == (LogView {
                elements: old(self)@.elements.push(
                    LogElementView {
                        time_stamp: if old(self)@.time_stamp {
                            Some(now as nat)
                        } else {
                            None
                        },
                        title: titel@,
                        context: context@,
                    },
                ),
                ..old(self)@
            }),
    {
        let element = LogElement::new_str(titel, context, self.time_stamp, now);
        self.elements.push(element);
        proof {
            assert(self@ =~= (LogView {
                elements: old(self)@.elements.push(element@),
                ..old(self)@
            }));
        }
    }

    /// Render the whole log to one text blob, lines in append order joined
    /// by newlines, with no trailing newline. Fails with `ClockSkew`
    /// exactly when some element's capture instant precedes the log's
    /// start instant; on failure no partial text is produced.
    pub fn to_string(&self) -> (r: Result<String, LogError>)
        ensures
            r is Err <==> spec_any_skew(self@.elements, self@.start_time),
            r is Err ==> r->Err_0 == LogError::ClockSkew,
            r is Ok ==> r->Ok_0@ == spec_render(self@.elements, self@.seperator, self@.start_time),
    {
        let mut value = String::new();
        let n = self.elements.len();
        let mut i: usize = 0;
        while i < n
            invariant
                i <= n,
                n == self.elements.len(),
                self@.elements.len() == n,
                forall|j: int| 0 <= j < i ==> !spec_skew(self@.elements[j], self@.start_time),
                value@ == spec_render(
                    self@.elements.take(i as int),
                    self@.seperator,
                    self@.start_time,
                ),
            decreases n - i,
        {
            let element = &self.elements[i];
            match element.to_string(&self.seperator, self.start_time) {
                Ok(line) => {
                    if i > 0 {
                        push_char(&mut value, '\n');
                    }
                    value.append(line.as_str());
                    proof {
                        let ghost view_elems = self@.elements;
                        let ghost sep = self@.seperator;
                        let ghost start = self@.start_time;
                        assert(view_elems.take(i + 1).drop_last() =~= view_elems.take(i as int));
                        assert(view_elems.take(i + 1).last() == view_elems[i as int]);
                        assert(value@ =~= spec_render(view_elems.take(i + 1), sep, start));
                    }
                },
                Err(e) => {
                    proof {
                        assert(spec_skew(self@.elements[i as int], self@.start_time));
                    }
                    return Err(e);
                },
            }
            i = i + 1;
        }
        proof {
            assert(self@.elements.take(n as int) =~= self@.elements);
        }
        Ok(value)
    }
}

} // verus!
