//! Drawings written as text, one statement to a line:
//!
//! ```text
//! // a comment
//! param width = 6000
//! point A 0 0
//! point B width 0
//! line bottom A B
//! circle hole A width / 4
//! ```
//!
//! A line is split into words at white space. The first word says what
//! the statement is; a line that starts with `//`, an empty line and a
//! line with any other first word say nothing. The expressions of a
//! statement are worked out by the application, which hands their values
//! back in ticks; the points are kept here by name.

use crate::graphics::vertex::{Color, Point};
use crate::model::circle::CircleOps;
use crate::model::line::LineOps;
use crate::numeric::{decimal_digits, push_decimal, string_push};
use crate::{State, StateView};
use vstd::prelude::*;
use vstd::string::StringExecFns;

verus! {

/// White space, as `char::is_whitespace` has it.
pub open spec fn is_space(c: char) -> bool {
    let u = c as u32;
    ||| 0x09 <= u <= 0x0d
    ||| u == 0x20
    ||| u == 0x85
    ||| u == 0xa0
    ||| u == 0x1680
    ||| 0x2000 <= u <= 0x200a
    ||| u == 0x2028
    ||| u == 0x2029
    ||| u == 0x202f
    ||| u == 0x205f
    ||| u == 0x3000
}

/// The words of `s` from index `i` on, `current` being the part already
/// read of the word that `i` stands in.
pub open spec fn words_from(s: Seq<char>, i: int, current: Seq<char>) -> Seq<Seq<char>>
    decreases s.len() - i,
{
    let ended = if current.len() > 0 {
        seq![current]
    } else {
        Seq::empty()
    };
    if i < 0 || i >= s.len() {
        ended
    } else if is_space(s[i]) {
        ended + words_from(s, i + 1, Seq::empty())
    } else {
        words_from(s, i + 1, current.push(s[i]))
    }
}

/// The words of `s`: its longest runs of characters that are no white
/// space, in order.
pub open spec fn words(s: Seq<char>) -> Seq<Seq<char>> {
    words_from(s, 0, Seq::empty())
}

/// The words from index `from` on, joined by single spaces.
pub open spec fn joined(words: Seq<Seq<char>>, from: int) -> Seq<char>
    decreases words.len() - from,
{
    if from < 0 || from >= words.len() {
        Seq::empty()
    } else if from == words.len() - 1 {
        words[from]
    } else {
        words[from].push(' ') + joined(words, from + 1)
    }
}

/// What a line of a script says.
#[derive(Clone, Debug)]
pub enum Statement {
    /// Nothing: an empty line, a comment, or a word this reader
    /// does not know.
    Blank,
    /// `param <name> = <expression>`
    Param { name: String, expression: String },
    /// `point <name> <expression> <expression>`
    Point { name: String, x: String, y: String },
    /// `line <name> <point> <point>`
    Line { from: String, to: String },
    /// `circle <name> <point> <expression>`
    Circle { center: String, radius: String },
}

/// A statement as the contracts speak of it.
pub enum StatementView {
    Blank,
    Param { name: Seq<char>, expression: Seq<char> },
    Point { name: Seq<char>, x: Seq<char>, y: Seq<char> },
    Line { from: Seq<char>, to: Seq<char> },
    Circle { center: Seq<char>, radius: Seq<char> },
}

impl View for Statement {
    type V = StatementView;

    open spec fn view(&self) -> StatementView {
        match self {
            Statement::Blank => StatementView::Blank,
            Statement::Param { name, expression } => StatementView::Param {
                name: name@,
                expression: expression@,
            },
            Statement::Point { name, x, y } => StatementView::Point { name: name@, x: x@, y: y@ },
            Statement::Line { from, to } => StatementView::Line { from: from@, to: to@ },
            Statement::Circle { center, radius } => StatementView::Circle {
                center: center@,
                radius: radius@,
            },
        }
    }
}

/// What is wrong with a line of a script.
#[derive(Clone, Debug)]
pub enum ScriptError {
    /// `param` without a name, an equals sign and an expression.
    ParamUsage { line_num: usize },
    /// `point` without a name and two expressions.
    PointUsage { line_num: usize },
    /// `line` without a name and two points.
    LineUsage { line_num: usize },
    /// `circle` without a name, a point and an expression.
    CircleUsage { line_num: usize },
    /// A point that no statement has defined.
    UnknownPoint { line_num: usize, name: String },
}

/// An error as the contracts speak of it.
pub enum ScriptErrorView {
    ParamUsage { line_num: usize },
    PointUsage { line_num: usize },
    LineUsage { line_num: usize },
    CircleUsage { line_num: usize },
    UnknownPoint { line_num: usize, name: Seq<char> },
}

impl View for ScriptError {
    type V = ScriptErrorView;

    open spec fn view(&self) -> ScriptErrorView {
        match self {
            ScriptError::ParamUsage { line_num } => ScriptErrorView::ParamUsage {
                line_num: *line_num,
            },
            ScriptError::PointUsage { line_num } => ScriptErrorView::PointUsage {
                line_num: *line_num,
            },
            ScriptError::LineUsage { line_num } => ScriptErrorView::LineUsage { line_num: *line_num },
            ScriptError::CircleUsage { line_num } => ScriptErrorView::CircleUsage {
                line_num: *line_num,
            },
            ScriptError::UnknownPoint { line_num, name } => ScriptErrorView::UnknownPoint {
                line_num: *line_num,
                name: name@,
            },
        }
    }
}

/// The message for a statement on line `line_num` that is not written
/// as `usage` shows.
pub open spec fn usage_message(line_num: usize, usage: Seq<char>) -> Seq<char> {
    "Error on line "@ + decimal_digits(line_num as nat) + ". Usage: "@ + usage
}

impl ScriptErrorView {
    /// The error in words.
    pub open spec fn message(self) -> Seq<char> {
        match self {
            ScriptErrorView::ParamUsage { line_num } => usage_message(
                line_num,
                "param <name> = <expression>"@,
            ),
            ScriptErrorView::PointUsage { line_num } => usage_message(
                line_num,
                "point <name> <expression> <expression>"@,
            ),
            ScriptErrorView::LineUsage { line_num } => usage_message(
                line_num,
                "line <name> <name_of_x_point> <name_of_y_point>"@,
            ),
            ScriptErrorView::CircleUsage { line_num } => usage_message(
                line_num,
                "circle <name> <center_point> <expression>"@,
            ),
            ScriptErrorView::UnknownPoint { line_num, name } => "Error on line "@ + decimal_digits(
                line_num as nat,
            ) + ". Unknown point: "@ + name,
        }
    }
}

fn usage_text(line_num: usize, shape: &str) -> (text: String)
    ensures
        text@ == usage_message(line_num, shape@),
{
    let mut text = String::from_str("Error on line ");
    push_decimal(&mut text, line_num as u64);
    text.append(". Usage: ");
    text.append(shape);
    text
}

impl ScriptError {
    /// The error in words.
    pub fn message(&self) -> (text: String)
        ensures
            text@ == self@.message(),
    {
        match self {
            ScriptError::ParamUsage { line_num } => usage_text(*line_num, "param <name> = <expression>"),
            ScriptError::PointUsage { line_num } => usage_text(
                *line_num,
                "point <name> <expression> <expression>",
            ),
            ScriptError::LineUsage { line_num } => usage_text(
                *line_num,
                "line <name> <name_of_x_point> <name_of_y_point>",
            ),
            ScriptError::CircleUsage { line_num } => usage_text(
                *line_num,
                "circle <name> <center_point> <expression>",
            ),
            ScriptError::UnknownPoint { line_num, name } => {
                let mut text = String::from_str("Error on line ");
                push_decimal(&mut text, *line_num as u64);
                text.append(". Unknown point: ");
                text.append(name.as_str());
                text
            },
        }
    }
}

/// The word is the start of a comment.
pub open spec fn is_comment(word: Seq<char>) -> bool {
    word.len() >= 2 && word[0] == '/' && word[1] == '/'
}

/// What the line `line`, the `line_num`-th of its script, says.
pub open spec fn statement_of(line: Seq<char>, line_num: usize) -> Result<
    StatementView,
    ScriptErrorView,
> {
    let parts = words(line);
    if parts.len() == 0 || is_comment(parts[0]) {
        Ok(StatementView::Blank)
    } else if parts[0] == "param"@ {
        if parts.len() < 4 || parts[2] != "="@ {
            Err(ScriptErrorView::ParamUsage { line_num })
        } else {
            Ok(StatementView::Param { name: parts[1], expression: joined(parts, 3) })
        }
    } else if parts[0] == "point"@ {
        if parts.len() < 4 {
            Err(ScriptErrorView::PointUsage { line_num })
        } else {
            Ok(StatementView::Point { name: parts[1], x: parts[2], y: parts[3] })
        }
    } else if parts[0] == "line"@ {
        if parts.len() < 4 {
            Err(ScriptErrorView::LineUsage { line_num })
        } else {
            Ok(StatementView::Line { from: parts[2], to: parts[3] })
        }
    } else if parts[0] == "circle"@ {
        if parts.len() < 4 {
            Err(ScriptErrorView::CircleUsage { line_num })
        } else {
            Ok(StatementView::Circle { center: parts[2], radius: parts[3] })
        }
    } else {
        Ok(StatementView::Blank)
    }
}

/// The views of the words of a collection.
pub open spec fn word_views(words: Seq<String>) -> Seq<Seq<char>> {
    Seq::new(words.len(), |i: int| words[i]@)
}

fn is_whitespace(c: char) -> (b: bool)
    ensures
        b == is_space(c),
{
    let u = c as u32;
    (0x09 <= u && u <= 0x0d) || u == 0x20 || u == 0x85 || u == 0xa0 || u == 0x1680 || (0x2000 <= u
        && u <= 0x200a) || u == 0x2028 || u == 0x2029 || u == 0x202f || u == 0x205f || u == 0x3000
}

/// Splits a line into its words.
pub fn split_words(line: &str) -> (parts: Vec<String>)
    ensures
        word_views(parts@) == words(line@),
{
    let mut parts: Vec<String> = Vec::new();
    let mut current = String::new();
    let n = line.unicode_len();
    let mut i: usize = 0;
    assert(word_views(parts@) =~= Seq::<Seq<char>>::empty());
    while i < n
        invariant
            n == line@.len(),
            i <= n,
            word_views(parts@) + words_from(line@, i as int, current@) == words(line@),
        decreases n - i,
    {
        let c = line.get_char(i);
        let ghost rest = words_from(line@, i as int, current@);
        let ghost done = word_views(parts@);
        assert(done + rest == words(line@));
        assert(c == line@[i as int]);
        if is_whitespace(c) {
            assert(rest == (if current@.len() > 0 {
                seq![current@]
            } else {
                Seq::<Seq<char>>::empty()
            }) + words_from(line@, i + 1, Seq::empty()));
            if current.as_str().unicode_len() > 0 {
                let ghost before = word_views(parts@);
                let ghost word = current@;
                parts.push(current);
                current = String::new();
                assert(word_views(parts@) =~= before + seq![word]);
                assert(before + (seq![word] + words_from(line@, i + 1, Seq::empty())) =~= (before
                    + seq![word]) + words_from(line@, i + 1, Seq::empty()));
            } else {
                assert(current@ =~= Seq::<char>::empty());
                assert(Seq::<Seq<char>>::empty() + words_from(line@, i + 1, Seq::empty())
                    =~= words_from(line@, i + 1, Seq::empty()));
            }
        } else {
            assert(rest == words_from(line@, i + 1, current@.push(c)));
            string_push(&mut current, c);
        }
        i += 1;
    }
    if current.as_str().unicode_len() > 0 {
        let ghost before = word_views(parts@);
        let ghost word = current@;
        parts.push(current);
        assert(word_views(parts@) =~= before + seq![word]);
    } else {
        assert(word_views(parts@) + Seq::<Seq<char>>::empty() =~= word_views(parts@));
    }
    parts
}

/// Whether `word` is the text `text`.
fn is_word(word: &String, text: &str) -> (b: bool)
    ensures
        b == (word@ == text@),
{
    let w = word.as_str();
    let n = w.unicode_len();
    if n != text.unicode_len() {
        return false;
    }
    let mut i: usize = 0;
    while i < n
        invariant
            n == w@.len(),
            n == text@.len(),
            w@ == word@,
            i <= n,
            forall|j: int| 0 <= j < i ==> w@[j] == text@[j],
        decreases n - i,
    {
        if w.get_char(i) != text.get_char(i) {
            return false;
        }
        i += 1;
    }
    assert(word@ =~= text@);
    true
}

fn starts_comment(word: &String) -> (b: bool)
    ensures
        b == is_comment(word@),
{
    let w = word.as_str();
    w.unicode_len() >= 2 && w.get_char(0) == '/' && w.get_char(1) == '/'
}

/// A copy of a word.
fn copy_word(word: &String) -> (copy: String)
    ensures
        copy@ == word@,
{
    String::from_str(word.as_str())
}

/// The words from index `from` on, joined by single spaces.
fn join_words(parts: &Vec<String>, from: usize) -> (text: String)
    requires
        from <= parts@.len(),
    ensures
        text@ == joined(word_views(parts@), from as int),
{
    let mut text = String::new();
    let n = parts.len();
    let mut i: usize = from;
    let ghost views = word_views(parts@);
    while i < n
        invariant
            n == parts@.len(),
            from <= i <= n,
            views == word_views(parts@),
            text@ + joined(views, i as int) == joined(views, from as int),
        decreases n - i,
    {
        let ghost before = text@;
        text.append(parts[i].as_str());
        assert(views[i as int] == parts@[i as int]@);
        if i + 1 < n {
            string_push(&mut text, ' ');
            assert(before + (views[i as int].push(' ') + joined(views, i + 1)) =~= (before
                + views[i as int]).push(' ') + joined(views, i + 1));
        } else {
            assert(joined(views, i + 1) =~= Seq::<char>::empty());
        }
        i += 1;
    }
    assert(text@ + Seq::<char>::empty() =~= text@);
    text
}

/// Reads one line of a script.
pub fn parse_statement(line: &str, line_num: usize) -> (result: Result<Statement, ScriptError>)
    ensures
        match result {
            Ok(statement) => statement_of(line@, line_num) == Ok::<
                StatementView,
                ScriptErrorView,
            >(statement@),
            Err(error) => statement_of(line@, line_num) == Err::<StatementView, ScriptErrorView>(
                error@,
            ),
        },
{
    let parts = split_words(line);
    let ghost views = word_views(parts@);
    if parts.len() == 0 {
        return Ok(Statement::Blank);
    }
    assert(views[0] == parts@[0]@);
    if starts_comment(&parts[0]) {
        return Ok(Statement::Blank);
    }
    let enough = parts.len() >= 4;
    proof {
        if enough {
            assert(views[1] == parts@[1]@);
            assert(views[2] == parts@[2]@);
            assert(views[3] == parts@[3]@);
        }
    }
    if is_word(&parts[0], "param") {
        if !enough || !is_word(&parts[2], "=") {
            proof {
                if parts.len() >= 3 {
                    assert(views[2] == parts@[2]@);
                }
            }
            return Err(ScriptError::ParamUsage { line_num });
        }
        Ok(Statement::Param { name: copy_word(&parts[1]), expression: join_words(&parts, 3) })
    } else if is_word(&parts[0], "point") {
        if !enough {
            return Err(ScriptError::PointUsage { line_num });
        }
        Ok(
            Statement::Point {
                name: copy_word(&parts[1]),
                x: copy_word(&parts[2]),
                y: copy_word(&parts[3]),
            },
        )
    } else if is_word(&parts[0], "line") {
        if !enough {
            return Err(ScriptError::LineUsage { line_num });
        }
        Ok(Statement::Line { from: copy_word(&parts[2]), to: copy_word(&parts[3]) })
    } else if is_word(&parts[0], "circle") {
        if !enough {
            return Err(ScriptError::CircleUsage { line_num });
        }
        Ok(Statement::Circle { center: copy_word(&parts[2]), radius: copy_word(&parts[3]) })
    } else {
        Ok(Statement::Blank)
    }
}

/// A point with the name a script gave it.
pub struct NamedPoint {
    pub name: String,
    pub position: Point,
}

/// The points that the statements read so far have defined.
pub struct Compiler {
    points: Vec<NamedPoint>,
}

/// The position of the point `name` among `points`: that of the last
/// point of that name before index `end`.
pub open spec fn lookup(points: Seq<(Seq<char>, Point)>, name: Seq<char>, end: int) -> Option<Point>
    decreases end,
{
    if end <= 0 || end > points.len() {
        None
    } else if points[end - 1].0 == name {
        Some(points[end - 1].1)
    } else {
        lookup(points, name, end - 1)
    }
}

/// The values that the application worked out for the expressions of a
/// statement, in ticks: both coordinates of a point, or the radius of a
/// circle in `x`.
#[derive(Clone, Copy, Debug, PartialEq, Eq, Structural)]
pub struct Values {
    pub x: i64,
    pub y: i64,
}

/// What carrying out a statement leads to: the points defined afterwards,
/// the session afterwards, and the error if the statement is refused.
pub struct Outcome {
    pub defined: Seq<(Seq<char>, Point)>,
    pub session: StateView,
    pub error: Option<ScriptErrorView>,
}

/// What carrying out `statement` leads to. A point is defined at
/// `values`, brought into range; a line is drawn between two defined
/// points; a circle is drawn around a defined point with the radius
/// `values.x`; a parameter and a blank change nothing. A statement that
/// names a point not yet defined is refused and changes nothing.
pub open spec fn outcome(
    defined: Seq<(Seq<char>, Point)>,
    session: StateView,
    statement: StatementView,
    values: Values,
    line_num: usize,
) -> Outcome {
    let unchanged = Outcome { defined, session, error: None };
    let all = defined.len() as int;
    match statement {
        StatementView::Blank => unchanged,
        StatementView::Param { .. } => unchanged,
        StatementView::Point { name, .. } => Outcome {
            defined: defined.push((name, Point::clamped(values.x as int, values.y as int))),
            ..unchanged
        },
        StatementView::Line { from, to } => match (
            lookup(defined, from, all),
            lookup(defined, to, all),
        ) {
            (Some(a), Some(b)) => Outcome {
                session: session.with_line(a, b, false),
                ..unchanged
            },
            (None, _) => Outcome {
                error: Some(ScriptErrorView::UnknownPoint { line_num, name: from }),
                ..unchanged
            },
            (Some(_), None) => Outcome {
                error: Some(ScriptErrorView::UnknownPoint { line_num, name: to }),
                ..unchanged
            },
        },
        StatementView::Circle { center, .. } => match lookup(defined, center, all) {
            Some(c) => Outcome {
                session: session.with_circle(
                    c,
                    values.x as int,
                    Color::white(),
                    false,
                    false,
                    false,
                ),
                ..unchanged
            },
            None => Outcome {
                error: Some(ScriptErrorView::UnknownPoint { line_num, name: center }),
                ..unchanged
            },
        },
    }
}

/// The error with which `statement` is refused: that of the first point
/// it names that is not defined, if there is one.
pub open spec fn refusal(
    defined: Seq<(Seq<char>, Point)>,
    statement: StatementView,
    line_num: usize,
) -> Option<ScriptErrorView> {
    let all = defined.len() as int;
    match statement {
        StatementView::Line { from, to } => if lookup(defined, from, all) is None {
            Some(ScriptErrorView::UnknownPoint { line_num, name: from })
        } else if lookup(defined, to, all) is None {
            Some(ScriptErrorView::UnknownPoint { line_num, name: to })
        } else {
            None
        },
        StatementView::Circle { center, .. } => if lookup(defined, center, all) is None {
            Some(ScriptErrorView::UnknownPoint { line_num, name: center })
        } else {
            None
        },
        _ => None,
    }
}

/// Whether a statement is carried out or refused depends on the points
/// defined alone, not on the session or on the values of its
/// expressions; a refused statement changes nothing.
pub proof fn lemma_refusal_is_the_error(
    defined: Seq<(Seq<char>, Point)>,
    session: StateView,
    statement: StatementView,
    values: Values,
    line_num: usize,
)
    ensures
        outcome(defined, session, statement, values, line_num).error == refusal(
            defined,
            statement,
            line_num,
        ),
        refusal(defined, statement, line_num) is Some ==> outcome(
            defined,
            session,
            statement,
            values,
            line_num,
        ).defined == defined && outcome(defined, session, statement, values, line_num).session
            == session,
{
}

/// The error of a result, if it is one.
pub open spec fn error_of(result: Result<(), ScriptError>) -> Option<ScriptErrorView> {
    match result {
        Ok(_) => None,
        Err(e) => Some(e@),
    }
}

impl Compiler {
    /// The points defined so far, each with its name, in the order of
    /// their definition.
    pub closed spec fn defined(&self) -> Seq<(Seq<char>, Point)> {
        Seq::new(self.points@.len(), |i: int| (self.points@[i].name@, self.points@[i].position))
    }

    /// The position of the point `name`, if it is defined.
    pub open spec fn point(&self, name: Seq<char>) -> Option<Point> {
        lookup(self.defined(), name, self.defined().len() as int)
    }

    /// A reader that knows no point yet.
    pub fn new() -> (compiler: Compiler)
        ensures
            compiler.defined() == Seq::<(Seq<char>, Point)>::empty(),
    {
        let compiler = Compiler { points: Vec::new() };
        assert(compiler.defined() =~= Seq::<(Seq<char>, Point)>::empty());
        compiler
    }

    /// The position of the point `name`, if it is defined; the last
    /// definition counts.
    pub fn find(&self, name: &String) -> (position: Option<Point>)
        ensures
            position == self.point(name@),
    {
        let mut i = self.points.len();
        while i > 0
            invariant
                i <= self.points@.len(),
                self.point(name@) == lookup(self.defined(), name@, i as int),
            decreases i,
        {
            if self.points[i - 1].name == *name {
                assert(self.defined()[i - 1].0 == name@);
                return Some(self.points[i - 1].position);
            }
            assert(self.defined()[i - 1].0 != name@);
            i -= 1;
        }
        None
    }

    /// Tells, before the expressions of `statement` are worked out,
    /// whether it will be refused for a point that is not defined.
    pub fn admits(&self, statement: &Statement, line_num: usize) -> (result: Result<
        (),
        ScriptError,
    >)
        ensures
            error_of(result) == refusal(self.defined(), statement@, line_num),
    {
        match statement {
            Statement::Line { from, to } => {
                if self.find(from).is_none() {
                    return Err(ScriptError::UnknownPoint { line_num, name: copy_word(from) });
                }
                if self.find(to).is_none() {
                    return Err(ScriptError::UnknownPoint { line_num, name: copy_word(to) });
                }
                Ok(())
            },
            Statement::Circle { center, .. } => {
                if self.find(center).is_none() {
                    return Err(ScriptError::UnknownPoint { line_num, name: copy_word(center) });
                }
                Ok(())
            },
            _ => Ok(()),
        }
    }

    /// Carries out one statement on the session, with the values that
    /// the application worked out for its expressions.
    pub fn apply(
        &mut self,
        state: &mut State,
        statement: &Statement,
        values: Values,
        line_num: usize,
    ) -> (result: Result<(), ScriptError>)
        requires
            old(state).wf(),
        ensures
            final(state).wf(),
            final(self).defined() == outcome(
                old(self).defined(),
                old(state)@,
                statement@,
                values,
                line_num,
            ).defined,
            final(state)@ == outcome(
                old(self).defined(),
                old(state)@,
                statement@,
                values,
                line_num,
            ).session,
            error_of(result) == outcome(
                old(self).defined(),
                old(state)@,
                statement@,
                values,
                line_num,
            ).error,
    {
        match statement {
            Statement::Blank => Ok(()),
            Statement::Param { .. } => Ok(()),
            Statement::Point { name, .. } => {
                let position = Point::clamp_from(values.x as i128, values.y as i128);
                let ghost before = self.defined();
                self.points.push(NamedPoint { name: copy_word(name), position });
                assert(self.defined() =~= before.push((name@, position)));
                Ok(())
            },
            Statement::Line { from, to } => {
                let a = match self.find(from) {
                    Some(p) => p,
                    None => {
                        return Err(ScriptError::UnknownPoint { line_num, name: copy_word(from) });
                    },
                };
                let b = match self.find(to) {
                    Some(p) => p,
                    None => {
                        return Err(ScriptError::UnknownPoint { line_num, name: copy_word(to) });
                    },
                };
                state.add_line(a, b, false);
                Ok(())
            },
            Statement::Circle { center, .. } => {
                let c = match self.find(center) {
                    Some(p) => p,
                    None => {
                        return Err(ScriptError::UnknownPoint { line_num, name: copy_word(center) });
                    },
                };
                state.add_circle(c, values.x, Color::white(), false, false, false);
                Ok(())
            },
        }
    }
}

/// No white space is in `s`.
pub open spec fn has_no_space(s: Seq<char>) -> bool {
    forall|i: int| 0 <= i < s.len() ==> !is_space(#[trigger] s[i])
}

/// Each of `ws` holds at least one character and no white space.
pub open spec fn are_words(ws: Seq<Seq<char>>) -> bool {
    forall|k: int| 0 <= k < ws.len() ==> (#[trigger] ws[k]).len() > 0 && has_no_space(ws[k])
}

proof fn lemma_words_from(s: Seq<char>, i: int, current: Seq<char>)
    requires
        0 <= i <= s.len(),
        has_no_space(current),
    ensures
        are_words(words_from(s, i, current)),
    decreases s.len() - i,
{
    let ended = if current.len() > 0 {
        seq![current]
    } else {
        Seq::<Seq<char>>::empty()
    };
    assert(are_words(ended)) by {
        if current.len() > 0 {
            assert(ended[0] == current);
        }
    }
    if i < s.len() {
        if is_space(s[i]) {
            lemma_words_from(s, i + 1, Seq::empty());
            let rest = words_from(s, i + 1, Seq::empty());
            assert(words_from(s, i, current) == ended + rest);
            assert forall|k: int| 0 <= k < (ended + rest).len() implies (#[trigger] (ended
                + rest)[k]).len() > 0 && has_no_space((ended + rest)[k]) by {
                if k >= ended.len() {
                    assert((ended + rest)[k] == rest[k - ended.len()]);
                } else {
                    assert((ended + rest)[k] == ended[k]);
                }
            }
        } else {
            let grown = current.push(s[i]);
            assert(has_no_space(grown)) by {
                assert forall|j: int| 0 <= j < grown.len() implies !is_space(
                    #[trigger] grown[j],
                ) by {
                    if j < current.len() {
                        assert(grown[j] == current[j]);
                    }
                }
            }
            lemma_words_from(s, i + 1, grown);
            assert(words_from(s, i, current) == words_from(s, i + 1, grown));
        }
    } else {
        assert(words_from(s, i, current) == ended);
    }
}

/// Every word of a line holds at least one character and no white
/// space.
pub proof fn lemma_words_are_words(s: Seq<char>)
    ensures
        are_words(words(s)),
{
    lemma_words_from(s, 0, Seq::empty());
}

} // verus!
