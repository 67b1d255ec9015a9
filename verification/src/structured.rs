//! The structured log: program-event entries (variable assignments,
//! function calls, control flow) with unconditionally captured instants.
//!
//! A `StructuredLog` is an append-only buffer of `StructuredElement`s.
//! Every element records the instant it was appended; whether that instant
//! is rendered is decided by the buffer's timestamp flag. Rendering joins
//! one line per element with a newline after every line, the last one
//! included.

use crate::render::{
    lemma_count_char_absent, lemma_count_char_concat, lemma_count_char_single,
    lemma_time_stamp_newline_free, push_char,
    spec_count_char, spec_time_stamp, str_eq, time_stamp_string,
};
use crate::LogError;
use vstd::prelude::*;
use vstd::string::StringExecFns;

verus! {

/// The closed set of structured-entry kinds, with their payload texts.
pub enum StatementKind {
    Variable(String, String),
    FunctionCall(String, String),
    IfStatement(String),
    ElseIfStatement(String),
    ElseStatement,
    ReturnStatement(String),
    Loops,
}

/// The mathematical content of a `StatementKind`.
#[verifier::ext_equal]
pub enum StatementKindView {
    Variable(Seq<char>, Seq<char>),
    FunctionCall(Seq<char>, Seq<char>),
    IfStatement(Seq<char>),
    ElseIfStatement(Seq<char>),
    ElseStatement,
    ReturnStatement(Seq<char>),
    Loops,
}

impl View for StatementKind {
    type V = StatementKindView;

    closed spec fn view(&self) -> StatementKindView {
        match self {
            StatementKind::Variable(n, v) => StatementKindView::Variable(n@, v@),
            StatementKind::FunctionCall(n, p) => StatementKindView::FunctionCall(n@, p@),
            StatementKind::IfStatement(c) => StatementKindView::IfStatement(c@),
            StatementKind::ElseIfStatement(c) => StatementKindView::ElseIfStatement(c@),
            StatementKind::ElseStatement => StatementKindView::ElseStatement,
            StatementKind::ReturnStatement(v) => StatementKindView::ReturnStatement(v@),
            StatementKind::Loops => StatementKindView::Loops,
        }
    }
}

/// The context text a kind renders to.
pub open spec fn spec_kind_text(k: StatementKindView) -> Seq<char> {
    match k {
        StatementKindView::Variable(n, v) => n + " = "@ + v,
        StatementKindView::FunctionCall(n, p) => "call "@ + n + "("@ + p + ")"@,
        StatementKindView::IfStatement(c) => "if "@ + c,
        StatementKindView::ElseIfStatement(c) => "else if "@ + c,
        StatementKindView::ElseStatement => "else"@,
        StatementKindView::ReturnStatement(v) => "return "@ + v,
        StatementKindView::Loops => "Loops()"@,
    }
}

/// The kind a tag designates, with the payload texts it selects, or
/// `None` for a tag outside the closed set.
pub open spec fn spec_tag_kind(tag: Seq<char>, name: Seq<char>, extra: Seq<char>) -> Option<
    StatementKindView,
> {
    if tag == "V"@ {
        Some(StatementKindView::Variable(name, extra))
    } else if tag == "FC"@ {
        Some(StatementKindView::FunctionCall(name, extra))
    } else if tag == "IF"@ {
        Some(StatementKindView::IfStatement(extra))
    } else if tag == "ELIF"@ {
        Some(StatementKindView::ElseIfStatement(extra))
    } else if tag == "ELSE"@ {
        Some(StatementKindView::ElseStatement)
    } else if tag == "R"@ {
        Some(StatementKindView::ReturnStatement(extra))
    } else {
        None
    }
}

impl StatementKind {
    /// Render this kind as its context text.
    pub fn to_string(&self) -> (s: String)
        ensures
            s@ == spec_kind_text(self@),
    {
        let mut s = String::new();
        match self {
            StatementKind::Variable(n, v) => {
                s.append(n.as_str());
                s.append(" = ");
                s.append(v.as_str());
            },
            StatementKind::FunctionCall(n, p) => {
                s.append("call ");
                s.append(n.as_str());
                s.append("(");
                s.append(p.as_str());
                s.append(")");
            },
            StatementKind::IfStatement(c) => {
                s.append("if ");
                s.append(c.as_str());
            },
            StatementKind::ElseIfStatement(c) => {
                s.append("else if ");
                s.append(c.as_str());
            },
            StatementKind::ElseStatement => {
                s.append("else");
            },
            StatementKind::ReturnStatement(v) => {
                s.append("return ");
                s.append(v.as_str());
            },
            StatementKind::Loops => {
                s.append("Loops()");
            },
        }
        proof {
            assert(s@ =~= spec_kind_text(self@));
        }
        s
    }
}

/// The mathematical content of a `StructuredElement`: the capture instant
/// in nanoseconds, the enclosing function's name, and the event kind.
#[verifier::ext_equal]
pub struct StructuredElementView {
    pub capture_time: nat,
    pub function_name: Seq<char>,
    pub context: StatementKindView,
}

/// One entry of the structured log. Immutable once constructed; its
/// capture instant is always present.
pub struct StructuredElement {
    capture_time: usize,
    function_name: String,
    context: StatementKind,
}

impl View for StructuredElement {
    type V = StructuredElementView;

    closed spec fn view(&self) -> StructuredElementView {
        StructuredElementView {
            capture_time: self.capture_time as nat,
            function_name: self.function_name@,
            context: self.context@,
        }
    }
}

/// The element's capture instant precedes the rendering start instant.
pub open spec fn spec_structured_skew(e: StructuredElementView, start: nat) -> bool {
    e.capture_time < start
}

/// The rendered line for one element: the relative timestamp (when shown),
/// the function name with `()`, the separator and the kind's context
/// text, joined by tabs.
pub open spec fn spec_structured_line(
    e: StructuredElementView,
    sep: Seq<char>,
    start: nat,
    show_time: bool,
) -> Seq<char>
    recommends
        show_time ==> !spec_structured_skew(e, start),
{
    if show_time {
        spec_time_stamp((e.capture_time - start) as nat) + seq!['\t'] + e.function_name + "()"@
            + seq!['\t'] + sep + seq!['\t'] + spec_kind_text(e.context)
    } else {
        e.function_name + "()"@ + seq!['\t'] + sep + seq!['\t'] + spec_kind_text(e.context)
    }
}

impl StructuredElement {
    /// Create an element from an already-built kind; the instant is always
    /// captured. With the kind set closed, construction cannot fail.
    pub fn from_kind(function_name: &str, context: StatementKind, now: usize) -> (e:
        StructuredElement)
        ensures
            e@ == (StructuredElementView {
                capture_time: now as nat,
                function_name: function_name@,
                context: context@,
            }),
    {
        StructuredElement { capture_time: now, function_name: function_name.to_owned(), context }
    }

    /// Create an element from a tag token out of `{V, FC, IF, ELIF, ELSE,
    /// R}`. Any other tag fails with `InvalidKind`.
    pub fn new(function_name: &str, name: &str, extra: &str, kind_tag: &str, now: usize) -> (r:
        Result<StructuredElement, LogError>)
        ensures
            r is Ok <==> spec_tag_kind(kind_tag@, name@, extra@) is Some,
            r is Ok ==> r->Ok_0@ == (StructuredElementView {
                capture_time: now as nat,
                function_name: function_name@,
                context: spec_tag_kind(kind_tag@, name@, extra@).unwrap(),
            }),
            r is Err ==> r->Err_0 == LogError::InvalidKind,
    {
        if str_eq(kind_tag, "V") {
            Ok(
                Self::from_kind(
                    function_name,
                    StatementKind::Variable(name.to_owned(), extra.to_owned()),
                    now,
                ),
            )
        } else if str_eq(kind_tag, "FC") {
            Ok(
                Self::from_kind(
                    function_name,
                    StatementKind::FunctionCall(name.to_owned(), extra.to_owned()),
                    now,
                ),
            )
        } else if str_eq(kind_tag, "IF") {
            Ok(Self::from_kind(function_name, StatementKind::IfStatement(extra.to_owned()), now))
        } else if str_eq(kind_tag, "ELIF") {
            Ok(
                Self::from_kind(
                    function_name,
                    StatementKind::ElseIfStatement(extra.to_owned()),
                    now,
                ),
            )
        } else if str_eq(kind_tag, "ELSE") {
            Ok(Self::from_kind(function_name, StatementKind::ElseStatement, now))
        } else if str_eq(kind_tag, "R") {
            Ok(
                Self::from_kind(
                    function_name,
                    StatementKind::ReturnStatement(extra.to_owned()),
                    now,
                ),
            )
        } else {
            Err(LogError::InvalidKind)
        }
    }

    /// Render this element as one line. Fails with `ClockSkew` exactly
    /// when the timestamp is to be shown and the element's capture
    /// instant is earlier than `start`.
    pub fn to_string(&self, seperator: &str, start: usize, show_time: bool) -> (r: Result<
        String,
        LogError,
    >)
        ensures
            r is Err <==> show_time && spec_structured_skew(self@, start as nat),
            r is Err ==> r->Err_0 == LogError::ClockSkew,
            r is Ok ==> r->Ok_0@ == spec_structured_line(
                self@,
                seperator@,
                start as nat,
                show_time,
            ),
    {
        let mut s = String::new();
        if show_time {
            if self.capture_time < start {
                return Err(LogError::ClockSkew);
            }
            let ts = time_stamp_string(self.capture_time - start);
            s.append(ts.as_str());
            push_char(&mut s, '\t');
        }
        s.append(self.function_name.as_str());
        s.append("()");
        push_char(&mut s, '\t');
        s.append(seperator);
        push_char(&mut s, '\t');
        let context = self.context.to_string();
        s.append(context.as_str());
        proof {
            assert(s@ =~= spec_structured_line(self@, seperator@, start as nat, show_time));
        }
        Ok(s)
    }
}

/// The mathematical content of a `StructuredLog`.
#[verifier::ext_equal]
pub struct StructuredLogView {
    pub time_stamp: bool,
    pub start_time: nat,
    pub seperator: Seq<char>,
    pub elements: Seq<StructuredElementView>,
}

/// The structured log buffer: configuration fixed at construction plus
/// the append-ordered elements.
pub struct StructuredLog {
    time_stamp: bool,
    start_time: usize,
    seperator: String,
    elements: Vec<StructuredElement>,
}

impl View for StructuredLog {
    type V = StructuredLogView;

    closed spec fn view(&self) -> StructuredLogView {
        StructuredLogView {
            time_stamp: self.time_stamp,
            start_time: self.start_time as nat,
            seperator: self.seperator@,
            elements: Seq::new(self.elements@.len(), |i: int| self.elements@[i]@),
        }
    }
}

/// Some element of the sequence suffers clock skew against `start`.
pub open spec fn spec_structured_any_skew(
    elements: Seq<StructuredElementView>,
    start: nat,
) -> bool {
    exists|i: int| 0 <= i < elements.len() && spec_structured_skew(elements[i], start)
}

/// The whole-buffer rendering: the lines of the elements in order, each
/// line — the last one included — followed by a newline. An empty
/// sequence renders to the empty text.
pub open spec fn spec_structured_render(
    elements: Seq<StructuredElementView>,
    sep: Seq<char>,
    start: nat,
    show_time: bool,
) -> Seq<char>
    decreases elements.len(),
{
    if elements.len() == 0 {
        Seq::empty()
    } else {
        spec_structured_render(elements.drop_last(), sep, start, show_time)
            + spec_structured_line(elements.last(), sep, start, show_time) + seq!['\n']
    }
}

/// Law: appending preserves order — rendering a buffer with one more
/// element yields the previous rendering with the new element's line and
/// its trailing newline at the end. No earlier line moves or changes.
pub proof fn lemma_structured_render_appends_last(
    elements: Seq<StructuredElementView>,
    e: StructuredElementView,
    sep: Seq<char>,
    start: nat,
    show_time: bool,
)
    ensures
        spec_structured_render(elements.push(e), sep, start, show_time) == spec_structured_render(
            elements,
            sep,
            start,
            show_time,
        ) + spec_structured_line(e, sep, start, show_time) + seq!['\n'],
{
    assert(elements.push(e).drop_last() =~= elements);
    assert(elements.push(e).last() == e);
}

/// The kind's payload texts are free of newlines.
pub open spec fn spec_kind_clean(k: StatementKindView) -> bool {
    match k {
        StatementKindView::Variable(n, v) => spec_count_char(n, '\n') == 0 && spec_count_char(
            v,
            '\n',
        ) == 0,
        StatementKindView::FunctionCall(n, p) => spec_count_char(n, '\n') == 0 && spec_count_char(
            p,
            '\n',
        ) == 0,
        StatementKindView::IfStatement(c) => spec_count_char(c, '\n') == 0,
        StatementKindView::ElseIfStatement(c) => spec_count_char(c, '\n') == 0,
        StatementKindView::ElseStatement => true,
        StatementKindView::ReturnStatement(v) => spec_count_char(v, '\n') == 0,
        StatementKindView::Loops => true,
    }
}

/// A clean kind renders to a context text without any newline.
pub proof fn lemma_kind_text_newline_free(k: StatementKindView)
    requires
        spec_kind_clean(k),
    ensures
        spec_count_char(spec_kind_text(k), '\n') == 0,
{
    match k {
        StatementKindView::Variable(n, v) => {
            reveal_strlit(" = ");
            assert(" = "@ =~= seq![' ', '=', ' ']);
            lemma_count_char_absent(seq![' ', '=', ' '], '\n');
            lemma_count_char_concat(n, " = "@, '\n');
            lemma_count_char_concat(n + " = "@, v, '\n');
        },
        StatementKindView::FunctionCall(n, p) => {
            reveal_strlit("call ");
            reveal_strlit("(");
            reveal_strlit(")");
            assert("call "@ =~= seq!['c', 'a', 'l', 'l', ' ']);
            assert("("@ =~= seq!['(']);
            assert(")"@ =~= seq![')']);
            lemma_count_char_absent(seq!['c', 'a', 'l', 'l', ' '], '\n');
            lemma_count_char_absent(seq!['('], '\n');
            lemma_count_char_absent(seq![')'], '\n');
            lemma_count_char_concat("call "@, n, '\n');
            lemma_count_char_concat("call "@ + n, "("@, '\n');
            lemma_count_char_concat("call "@ + n + "("@, p, '\n');
            lemma_count_char_concat("call "@ + n + "("@ + p, ")"@, '\n');
        },
        StatementKindView::IfStatement(c) => {
            reveal_strlit("if ");
            assert("if "@ =~= seq!['i', 'f', ' ']);
            lemma_count_char_absent(seq!['i', 'f', ' '], '\n');
            lemma_count_char_concat("if "@, c, '\n');
        },
        StatementKindView::ElseIfStatement(c) => {
            reveal_strlit("else if ");
            assert("else if "@ =~= seq!['e', 'l', 's', 'e', ' ', 'i', 'f', ' ']);
            lemma_count_char_absent(seq!['e', 'l', 's', 'e', ' ', 'i', 'f', ' '], '\n');
            lemma_count_char_concat("else if "@, c, '\n');
        },
        StatementKindView::ElseStatement => {
            reveal_strlit("else");
            assert("else"@ =~= seq!['e', 'l', 's', 'e']);
            lemma_count_char_absent(seq!['e', 'l', 's', 'e'], '\n');
        },
        StatementKindView::ReturnStatement(v) => {
            reveal_strlit("return ");
            assert("return "@ =~= seq!['r', 'e', 't', 'u', 'r', 'n', ' ']);
            lemma_count_char_absent(seq!['r', 'e', 't', 'u', 'r', 'n', ' '], '\n');
            lemma_count_char_concat("return "@, v, '\n');
        },
        StatementKindView::Loops => {
            reveal_strlit("Loops()");
            assert("Loops()"@ =~= seq!['L', 'o', 'o', 'p', 's', '(', ')']);
            lemma_count_char_absent(seq!['L', 'o', 'o', 'p', 's', '(', ')'], '\n');
        },
    }
}

/// The element's texts and the separator are free of newlines, so its
/// rendered line is a single segment.
pub open spec fn spec_structured_line_clean(e: StructuredElementView, sep: Seq<char>) -> bool {
    &&& spec_count_char(e.function_name, '\n') == 0
    &&& spec_kind_clean(e.context)
    &&& spec_count_char(sep, '\n') == 0
}

/// A clean element renders to a line without any newline in it.
pub proof fn lemma_structured_line_newline_free(
    e: StructuredElementView,
    sep: Seq<char>,
    start: nat,
    show_time: bool,
)
    requires
        spec_structured_line_clean(e, sep),
    ensures
        spec_count_char(spec_structured_line(e, sep, start, show_time), '\n') == 0,
{
    let tab = seq!['\t'];
    let ctext = spec_kind_text(e.context);
    reveal_strlit("()");
    assert("()"@ =~= seq!['(', ')']);
    lemma_count_char_absent(seq!['(', ')'], '\n');
    lemma_count_char_absent(tab, '\n');
    lemma_kind_text_newline_free(e.context);
    if show_time {
        let ts = spec_time_stamp((e.capture_time - start) as nat);
        lemma_time_stamp_newline_free((e.capture_time - start) as nat);
        lemma_count_char_concat(ts, tab, '\n');
        lemma_count_char_concat(ts + tab, e.function_name, '\n');
        lemma_count_char_concat(ts + tab + e.function_name, "()"@, '\n');
        lemma_count_char_concat(ts + tab + e.function_name + "()"@, tab, '\n');
        lemma_count_char_concat(ts + tab + e.function_name + "()"@ + tab, sep, '\n');
        lemma_count_char_concat(ts + tab + e.function_name + "()"@ + tab + sep, tab, '\n');
        lemma_count_char_concat(ts + tab + e.function_name + "()"@ + tab + sep + tab, ctext, '\n');
    } else {
        lemma_count_char_concat(e.function_name, "()"@, '\n');
        lemma_count_char_concat(e.function_name + "()"@, tab, '\n');
        lemma_count_char_concat(e.function_name + "()"@ + tab, sep, '\n');
        lemma_count_char_concat(e.function_name + "()"@ + tab + sep, tab, '\n');
        lemma_count_char_concat(e.function_name + "()"@ + tab + sep + tab, ctext, '\n');
    }
}

/// Law: when every appended element is clean, the rendered buffer text
/// holds exactly one newline per element — one after every line, the
/// last included — so its newline count equals the number of elements.
pub proof fn lemma_structured_render_newline_count(
    elements: Seq<StructuredElementView>,
    sep: Seq<char>,
    start: nat,
    show_time: bool,
)
    requires
        forall|i: int|
            0 <= i < elements.len() ==> spec_structured_line_clean(#[trigger] elements[i], sep),
    ensures
        spec_count_char(spec_structured_render(elements, sep, start, show_time), '\n')
            == elements.len(),
    decreases elements.len(),
{
    if elements.len() > 0 {
        let front = elements.drop_last();
        let line = spec_structured_line(elements.last(), sep, start, show_time);
        assert forall|i: int| 0 <= i < front.len() implies spec_structured_line_clean(
            #[trigger] front[i],
            sep,
        ) by {
            assert(front[i] == elements[i]);
        }
        lemma_structured_render_newline_count(front, sep, start, show_time);
        lemma_structured_line_newline_free(elements.last(), sep, start, show_time);
        lemma_count_char_single('\n');
        lemma_count_char_concat(spec_structured_render(front, sep, start, show_time), line, '\n');
        lemma_count_char_concat(
            spec_structured_render(front, sep, start, show_time) + line,
            seq!['\n'],
            '\n',
        );
    }
}

impl StructuredLog {
    /// Create an empty structured log. `start_time` is the instant all
    /// rendered timestamps are measured from; `time_stamp_on` decides
    /// whether rendering shows each element's instant.
    pub fn new(time_stamp_on: bool, seperator: String, start_time: usize) -> (log: StructuredLog)
        ensures
            log@ == (StructuredLogView {
                time_stamp: time_stamp_on,
                start_time: start_time as nat,
                seperator: seperator@,
                elements: Seq::<StructuredElementView>::empty(),
            }),
    {
        let log = StructuredLog {
            time_stamp: time_stamp_on,
            start_time,
            seperator,
            elements: Vec::new(),
        };
        proof {
            assert(log@.elements =~= Seq::<StructuredElementView>::empty());
            assert(log@ =~= (StructuredLogView { elements: Seq::empty(), ..log@ }));
        }
        log
    }

    /// Append an element built from an already-typed kind, captured at
    /// `now`. Everything already appended stays as it was.
    pub fn add(&mut self, function_name: &str, context: StatementKind, now: usize)
        ensures
            final(self)@ == (StructuredLogView {
                elements: old(self)@.elements.push(
                    StructuredElementView {
                        capture_time: now as nat,
                        function_name: function_name@,
                        context: context@,
                    },
                ),
                ..old(self)@
            }),
    {
        let element = StructuredElement::from_kind(function_name, context, now);
        self.elements.push(element);
        proof {
            assert(self@ =~= (StructuredLogView {
                elements: old(self)@.elements.push(element@),
                ..old(self)@
            }));
        }
    }

    /// Append a variable-assignment event `name = value`.
    pub fn add_variable(&mut self, function_name: &str, name: &str, value: &str, now: usize)
        ensures
            final(self)@ == (StructuredLogView {
                elements: old(self)@.elements.push(
                    StructuredElementView {
                        capture_time: now as nat,
                        function_name: function_name@,
                        context: StatementKindView::Variable(name@, value@),
                    },
                ),
                ..old(self)@
            }),
    {
        self.add(function_name, StatementKind::Variable(name.to_owned(), value.to_owned()), now);
    }

    /// Append a function-call event `call name(parameters)`.
    pub fn add_function_call(
        &mut self,
        function_name: &str,
        name: &str,
        parameters: &str,
        now: usize,
    )
        ensures
            final(self)@ == (StructuredLogView {
                elements: old(self)@.elements.push(
                    StructuredElementView {
                        capture_time: now as nat,
                        function_name: function_name@,
                        context: StatementKindView::FunctionCall(name@, parameters@),
                    },
                ),
                ..old(self)@
            }),
    {
        self.add(
            function_name,
            StatementKind::FunctionCall(name.to_owned(), parameters.to_owned()),
            now,
        );
    }

    /// Append an if-statement event `if condition`.
    pub fn add_if_statement(&mut self, function_name: &str, condition: &str, now: usize)
        ensures
            final(self)@ == (StructuredLogView {
                elements: old(self)@.elements.push(
                    StructuredElementView {
                        capture_time: now as nat,
                        function_name: function_name@,
                        context: StatementKindView::IfStatement(condition@),
                    },
                ),
                ..old(self)@
            }),
    {
        self.add(function_name, StatementKind::IfStatement(condition.to_owned()), now);
    }

    /// Append an else-if-statement event `else if condition`.
    pub fn add_else_if_statement(&mut self, function_name: &str, condition: &str, now: usize)
        ensures
            final(self)@ == (StructuredLogView {
                elements: old(self)@.elements.push(
                    StructuredElementView {
                        capture_time: now as nat,
                        function_name: function_name@,
                        context: StatementKindView::ElseIfStatement(condition@),
                    },
                ),
                ..old(self)@
            }),
    {
        self.add(function_name, StatementKind::ElseIfStatement(condition.to_owned()), now);
    }

    /// Append an else-statement event.
    pub fn add_else_statement(&mut self, function_name: &str, now: usize)
        ensures
            final(self)@ == (StructuredLogView {
                elements: old(self)@.elements.push(
                    StructuredElementView {
                        capture_time: now as nat,
                        function_name: function_name@,
                        context: StatementKindView::ElseStatement,
                    },
                ),
                ..old(self)@
            }),
    {
        self.add(function_name, StatementKind::ElseStatement, now);
    }

    /// Append a return-statement event `return value`.
    pub fn add_return_statement(&mut self, function_name: &str, value: &str, now: usize)
        ensures
            final(self)@ == (StructuredLogView {
                elements: old(self)@.elements.push(
                    StructuredElementView {
                        capture_time: now as nat,
                        function_name: function_name@,
                        context: StatementKindView::ReturnStatement(value@),
                    },
                ),
                ..old(self)@
            }),
    {
        self.add(function_name, StatementKind::ReturnStatement(value.to_owned()), now);
    }

    /// Append a loop marker event.
    pub fn add_loops(&mut self, function_name: &str, now: usize)
        ensures
            final(self)@ == (StructuredLogView {
                elements: old(self)@.elements.push(
                    StructuredElementView {
                        capture_time: now as nat,
                        function_name: function_name@,
                        context: StatementKindView::Loops,
                    },
                ),
                ..old(self)@
            }),
    {
        self.add(function_name, StatementKind::Loops, now);
    }

    /// Append an element selected by a tag token out of `{V, FC, IF,
    /// ELIF, ELSE, R}`. Any other tag fails with `InvalidKind` and leaves
    /// the log unchanged.
    pub fn add_tagged(
        &mut self,
        function_name: &str,
        name: &str,
        extra: &str,
        kind_tag: &str,
        now: usize,
    ) -> (r: Result<(), LogError>)
        ensures
            r is Ok <==> spec_tag_kind(kind_tag@, name@, extra@) is Some,
            r is Ok ==> final(self)@ == (StructuredLogView {
                elements: old(self)@.elements.push(
                    StructuredElementView {
                        capture_time: now as nat,
                        function_name: function_name@,
                        context: spec_tag_kind(kind_tag@, name@, extra@).unwrap(),
                    },
                ),
                ..old(self)@
            }),
            r is Err ==> r->Err_0 == LogError::InvalidKind && *final(self) == *old(self),
    {
        match StructuredElement::new(function_name, name, extra, kind_tag, now) {
            Ok(element) => {
                self.elements.push(element);
                proof {
                    assert(self@ =~= (StructuredLogView {
                        elements: old(self)@.elements.push(element@),
                        ..old(self)@
                    }));
                }
                Ok(())
            },
            Err(e) => Err(e),
        }
    }

    /// Render the whole log to one text blob, lines in append order, each
    /// followed by a newline. Fails with `ClockSkew` exactly when
    /// timestamps are shown and some element's capture instant precedes
    /// the log's start instant; on failure no partial text is produced.
    pub fn to_string(&self) -> (r: Result<String, LogError>)
        ensures
            r is Err <==> self@.time_stamp && spec_structured_any_skew(
                self@.elements,
                self@.start_time,
            ),
            r is Err ==> r->Err_0 == LogError::ClockSkew,
            r is Ok ==> r->Ok_0@ == spec_structured_render(
                self@.elements,
                self@.seperator,
                self@.start_time,
                self@.time_stamp,
            ),
    {
        let mut value = String::new();
        let n = self.elements.len();
        let mut i: usize = 0;
        while i < n
            invariant
                i <= n,
                n == self.elements.len(),
                self@.elements.len() == n,
                self@.time_stamp ==> forall|j: int|
                    0 <= j < i ==> !spec_structured_skew(self@.elements[j], self@.start_time),
                value@ == spec_structured_render(
                    self@.elements.take(i as int),
                    self@.seperator,
                    self@.start_time,
                    self@.time_stamp,
                ),
            decreases n - i,
        {
            let element = &self.elements[i];
            match element.to_string(self.seperator.as_str(), self.start_time, self.time_stamp) {
                Ok(line) => {
                    value.append(line.as_str());
                    push_char(&mut value, '\n');
                    proof {
                        let ghost view_elems = self@.elements;
                        assert(view_elems.take(i + 1).drop_last() =~= view_elems.take(i as int));
                        assert(view_elems.take(i + 1).last() == view_elems[i as int]);
                        assert(value@ =~= spec_structured_render(
                            view_elems.take(i + 1),
                            self@.seperator,
                            self@.start_time,
                            self@.time_stamp,
                        ));
                    }
                },
                Err(e) => {
                    proof {
                        assert(spec_structured_skew(self@.elements[i as int], self@.start_time));
                    }
                    return Err(e);
                },
            }
            i = i + 1;
        }
        proof {
            assert(self@.elements.take(n as int) =~= self@.elements);
        }
        Ok(value)
    }
}

} // verus!
