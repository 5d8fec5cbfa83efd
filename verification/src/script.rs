//! The RS2 script format: line checking, reading a script's behaviour,
//! collision actions and text values.
//!
//! An RS2 script is a list of lines. Blank lines and lines starting with
//! `//` are ignored; a line starting with `@` is a directive; any other line
//! holding `=` is an assignment; every other line is free text.
use vstd::prelude::*;
use crate::float_literal::{is_float_literal, is_float_literal_chars, law_digits_are_float_literals, without_sign};
use crate::text::{
    chars_eq, chars_of, concat_chars, contains_char, decimal, decimal_chars, ends_with,
    ends_with_chars, find_char, find_space, first_index_of, first_space_index, lemma_first_index_of,
    lemma_first_space_index, lower_seq, starts_with, starts_with_chars, string_of, string_views, opt_view, sub_chars, trim,
    trim_char, trim_char_chars, trim_chars, trim_end_char, trim_end_char_chars, trim_start_char,
    trim_start_char_chars, to_ascii_lower_chars, lines_chars, lines_of, pieces_by, views, is_ascii_digit,
    is_white_space, trim_start, trim_end, lemma_first_index_unique,
};

verus! {

/// What a script asks for when its entity collides.
#[derive(Debug, Clone, PartialEq, Eq)]
pub enum ScriptAction {
    ChangeScene(String),
    ReloadScene,
}

/// The mathematical value of a [`ScriptAction`].
pub enum ActionModel {
    ChangeScene(Seq<char>),
    ReloadScene,
}

impl View for ScriptAction {
    type V = ActionModel;

    open spec fn view(&self) -> ActionModel {
        match self {
            ScriptAction::ChangeScene(p) => ActionModel::ChangeScene(p@),
            ScriptAction::ReloadScene => ActionModel::ReloadScene,
        }
    }
}

/// A problem found on one line of a script (lines count from 1).
#[derive(Debug, Clone, PartialEq, Eq)]
pub struct ScriptError {
    pub line: usize,
    pub message: String,
}

impl View for ScriptError {
    type V = (int, Seq<char>);

    open spec fn view(&self) -> (int, Seq<char>) {
        (self.line as int, self.message@)
    }
}

pub open spec fn display_text(line: int, message: Seq<char>) -> Seq<char> {
    "Linha "@ + decimal(line as nat) + ": "@ + message
}

impl ScriptError {
    /// `Linha <n>: <message>`.
    pub fn display(&self) -> (r: String)
        ensures
            r@ == display_text(self.line as int, self.message@),
    {
        let mut s = String::from_str("Linha ");
        let digits = decimal_chars(self.line);
        s.append(string_of(&digits).as_str());
        s.append(": ");
        s.append(self.message.as_str());
        s
    }
}

/// Why a script reference could not be loaded.
#[derive(Debug, Clone)]
pub enum ScriptLoadError {
    EmptyPath,
    InvalidExtension(String),
    FileNotFound(String),
    ReadFailed(String),
    ValidationFailed(Vec<ScriptError>),
}

pub open spec fn errors_view(errors: Seq<ScriptError>) -> Seq<(int, Seq<char>)> {
    errors.map_values(|e: ScriptError| e@)
}

pub open spec fn displayed(errors: Seq<(int, Seq<char>)>) -> Seq<Seq<char>> {
    errors.map_values(|e: (int, Seq<char>)| display_text(e.0, e.1))
}

/// `a | b | c`: the texts joined by `" | "`.
pub open spec fn join_bar(parts: Seq<Seq<char>>) -> Seq<char>
    decreases parts.len(),
{
    if parts.len() == 0 {
        seq![]
    } else if parts.len() == 1 {
        parts[0]
    } else {
        join_bar(parts.drop_last()) + " | "@ + parts.last()
    }
}

pub open spec fn load_error_text(e: ScriptLoadError) -> Seq<char> {
    match e {
        ScriptLoadError::EmptyPath => "Caminho do script está vazio."@,
        ScriptLoadError::InvalidExtension(p) => "'"@ + p@ + "' não é um arquivo .rs2 válido."@,
        ScriptLoadError::FileNotFound(p) => "Arquivo de script não encontrado: "@ + p@,
        ScriptLoadError::ReadFailed(p) => "Falha ao ler o script: "@ + p@,
        ScriptLoadError::ValidationFailed(errs) => join_bar(displayed(errors_view(errs@))),
    }
}

/// Joins texts with `" | "`.
pub fn join_with_bar(parts: &Vec<String>) -> (r: String)
    ensures
        r@ == join_bar(string_views(parts@)),
{
    let ghost views = string_views(parts@);
    let mut r = String::new();
    for i in 0..parts.len()
        invariant
            views == string_views(parts@),
            r@ == join_bar(views.take(i as int)),
    {
        assert(views.take(i + 1).drop_last() == views.take(i as int));
        if i > 0 {
            r.append(" | ");
        }
        r.append(parts[i].as_str());
    }
    assert(views.take(parts.len() as int) == views);
    r
}

impl ScriptLoadError {
    /// The message shown for this error.
    pub fn message(&self) -> (r: String)
        ensures
            r@ == load_error_text(*self),
    {
        match self {
            ScriptLoadError::EmptyPath => String::from_str("Caminho do script está vazio."),
            ScriptLoadError::InvalidExtension(p) => {
                let mut s = String::from_str("'");
                s.append(p.as_str());
                s.append("' não é um arquivo .rs2 válido.");
                s
            },
            ScriptLoadError::FileNotFound(p) => {
                let mut s = String::from_str("Arquivo de script não encontrado: ");
                s.append(p.as_str());
                s
            },
            ScriptLoadError::ReadFailed(p) => {
                let mut s = String::from_str("Falha ao ler o script: ");
                s.append(p.as_str());
                s
            },
            ScriptLoadError::ValidationFailed(errs) => {
                let lines = format_script_errors(errs);
                join_with_bar(&lines)
            },
        }
    }
}

/// Whether a script path names an `.rs2` file (ignoring case and
/// surrounding white space).
pub open spec fn spec_is_valid_rs2_script(path: Seq<char>) -> bool {
    ends_with(lower_seq(trim(path)), ".rs2"@)
}

pub fn is_valid_rs2_script(path: &str) -> (r: bool)
    ensures
        r == spec_is_valid_rs2_script(path@),
{
    let p = chars_of(path);
    let t = trim_chars(&p);
    let l = to_ascii_lower_chars(&t);
    let ext = chars_of(".rs2");
    ends_with_chars(&l, &ext)
}

// ── lines ────────────────────────────────────────────────────

/// A line with its surrounding white space removed; a comment line becomes
/// empty.
pub open spec fn normalize_line(line: Seq<char>) -> Seq<char> {
    let t = trim(line);
    if starts_with(t, "//"@) {
        seq![]
    } else {
        t
    }
}

/// `trim().trim_end_matches(';').trim()`.
pub open spec fn trim_value(s: Seq<char>) -> Seq<char> {
    trim(trim_end_char(trim(s), ';'))
}

pub open spec fn is_numeric_token(s: Seq<char>) -> bool {
    is_float_literal(trim_value(s))
}

/// The text of a text value: `=` before it, `;` after it and quotes
/// around it are dropped; an empty text is no value.
pub open spec fn spec_parse_text_value(raw: Seq<char>) -> Option<Seq<char>> {
    let value = trim_value(trim_start_char(trim(raw), '='));
    let unquoted = trim_char(trim_char(value, '"'), '\'');
    if unquoted.len() == 0 {
        None
    } else {
        Some(unquoted)
    }
}

/// `change_scene "path"` or `reload_scene`, with an optional final `;`.
pub open spec fn spec_parse_script_action(raw: Seq<char>) -> Option<ActionModel> {
    let cleaned = trim_value(raw);
    let path = trim_char(trim_char(trim(cleaned.skip(12)), '"'), '\'');
    if starts_with(cleaned, "change_scene"@) && path.len() > 0 {
        Some(ActionModel::ChangeScene(path))
    } else if cleaned == "reload_scene"@ {
        Some(ActionModel::ReloadScene)
    } else {
        None
    }
}

pub open spec fn is_numeric_directive(token: Seq<char>) -> bool {
    ||| token == "@move_x"@
    ||| token == "@move_y"@
    ||| token == "@rotate_speed"@
    ||| token == "@player_controller"@
}

/// The error of a directive line (`clean` starts with `@`): the first word
/// is the directive, the rest of the line its argument.
pub open spec fn directive_error(clean: Seq<char>) -> Option<Seq<char>> {
    let k = first_space_index(clean);
    let token = clean.take(k);
    let rest = trim(clean.skip(k));
    if is_numeric_directive(token) {
        if rest.len() == 0 {
            Some(token + " precisa de um número."@)
        } else if !is_numeric_token(rest) {
            Some(token + " esperava um número, mas recebeu '"@ + rest + "'."@)
        } else {
            None
        }
    } else if token == "@camera_follow"@ {
        if rest.len() > 0 {
            Some("@camera_follow não aceita argumentos."@)
        } else {
            None
        }
    } else if token == "@start_message"@ {
        if spec_parse_text_value(rest) is None {
            Some("@start_message precisa de um texto não vazio."@)
        } else {
            None
        }
    } else if token == "@on_update"@ {
        if rest.len() == 0 {
            Some("@on_update precisa de uma instrução ou descrição após a diretiva."@)
        } else {
            None
        }
    } else if token == "@on_collision"@ {
        if spec_parse_script_action(rest) is None {
            Some(
                "@on_collision precisa de uma ação válida: change_scene \"caminho\" ou reload_scene."@,
            )
        } else {
            None
        }
    } else {
        Some("Diretiva desconhecida '"@ + token + "'."@)
    }
}

pub open spec fn is_numeric_key(key: Seq<char>) -> bool {
    ||| key == "move_x"@
    ||| key == "move_y"@
    ||| key == "rotate_speed"@
    ||| key == "player_controller"@
    ||| key == "player_controller_speed"@
}

/// The error of an assignment line (`clean` holds `=`): the key is the text
/// before the first `=`, the value the text after it.
pub open spec fn assignment_error(clean: Seq<char>) -> Option<Seq<char>> {
    let e = first_index_of(clean, '=');
    let key = trim(clean.take(e));
    let value = trim_value(clean.skip(e + 1));
    if is_numeric_key(key) {
        if value.len() == 0 {
            Some(key + " precisa de um número."@)
        } else if !is_float_literal(value) {
            Some(key + " esperava um número, mas recebeu '"@ + value + "'."@)
        } else {
            None
        }
    } else if key == "start_message"@ {
        if spec_parse_text_value(value) is None {
            Some("start_message precisa de um texto não vazio."@)
        } else {
            None
        }
    } else if key == "camera_follow"@ {
        if lower_seq(value) != "true"@ && lower_seq(value) != "false"@ {
            Some("camera_follow só aceita true ou false."@)
        } else {
            None
        }
    } else {
        Some("Atribuição desconhecida '"@ + key + "'."@)
    }
}

/// The error of one normalized line, if it has one.
pub open spec fn line_error(clean: Seq<char>) -> Option<Seq<char>> {
    if clean.len() == 0 {
        None
    } else if clean[0] == '@' {
        directive_error(clean)
    } else if clean.contains('=') {
        assignment_error(clean)
    } else {
        None
    }
}

/// The errors of a list of lines, in line order, each with its line number.
pub open spec fn lines_errors(lines: Seq<Seq<char>>) -> Seq<(int, Seq<char>)>
    decreases lines.len(),
{
    if lines.len() == 0 {
        seq![]
    } else {
        let prev = lines_errors(lines.drop_last());
        match line_error(normalize_line(lines.last())) {
            Some(m) => prev.push((lines.len() as int, m)),
            None => prev,
        }
    }
}

/// The errors of a whole script.
pub open spec fn script_errors(code: Seq<char>) -> Seq<(int, Seq<char>)> {
    lines_errors(lines_of(code))
}

/// The errors of a script come in line order, at most one per line, each
/// on a line of the script and with the message that line's check gives.
pub proof fn law_script_errors_in_line_order(code: Seq<char>)
    ensures
        ({
            let e = script_errors(code);
            let lines = lines_of(code);
            &&& forall|i: int, j: int| 0 <= i < j < e.len() ==> e[i].0 < e[j].0
            &&& forall|k: int|
                0 <= k < e.len() ==> 1 <= #[trigger] e[k].0 <= lines.len() && line_error(
                    normalize_line(lines[e[k].0 - 1]),
                ) == Some(e[k].1)
        }),
{
    lemma_lines_errors(lines_of(code));
}

proof fn lemma_lines_errors(lines: Seq<Seq<char>>)
    ensures
        ({
            let e = lines_errors(lines);
            &&& forall|i: int, j: int| 0 <= i < j < e.len() ==> e[i].0 < e[j].0
            &&& forall|k: int|
                0 <= k < e.len() ==> 1 <= #[trigger] e[k].0 <= lines.len() && line_error(
                    normalize_line(lines[e[k].0 - 1]),
                ) == Some(e[k].1)
        }),
    decreases lines.len(),
{
    if lines.len() > 0 {
        let d = lines.drop_last();
        lemma_lines_errors(d);
        let p = lines_errors(d);
        let e = lines_errors(lines);
        assert forall|k: int| 0 <= k < p.len() implies 1 <= #[trigger] p[k].0 <= lines.len() && line_error(
            normalize_line(lines[p[k].0 - 1]),
        ) == Some(p[k].1) by {
            assert(lines[p[k].0 - 1] == d[p[k].0 - 1]);
        }
        match line_error(normalize_line(lines.last())) {
            Some(m) => {
                assert(e == p.push((lines.len() as int, m)));
                assert forall|k: int| 0 <= k < e.len() implies 1 <= #[trigger] e[k].0 <= lines.len() && line_error(
                    normalize_line(lines[e[k].0 - 1]),
                ) == Some(e[k].1) by {
                    if k < p.len() {
                        assert(e[k] == p[k]);
                    }
                }
                assert forall|i: int, j: int| 0 <= i < j < e.len() implies e[i].0 < e[j].0 by {
                    if j < p.len() {
                        assert(e[i] == p[i] && e[j] == p[j]);
                    } else {
                        assert(e[i] == p[i]);
                    }
                }
            },
            None => {},
        }
    }
}

// ── executable checker ───────────────────────────────────────

fn literal(s: &str) -> (r: Vec<char>)
    ensures
        r@ == s@,
{
    chars_of(s)
}

fn trim_value_chars(s: &Vec<char>) -> (r: Vec<char>)
    ensures
        r@ == trim_value(s@),
{
    let a = trim_chars(s);
    let b = trim_end_char_chars(&a, ';');
    trim_chars(&b)
}

fn normalize_line_chars(line: &Vec<char>) -> (r: Vec<char>)
    ensures
        r@ == normalize_line(line@),
{
    let t = trim_chars(line);
    if starts_with_chars(&t, &literal("//")) {
        Vec::new()
    } else {
        t
    }
}

fn parse_text_value_chars(raw: &Vec<char>) -> (r: Option<Vec<char>>)
    ensures
        match r {
            Some(v) => spec_parse_text_value(raw@) == Some(v@),
            None => spec_parse_text_value(raw@) is None,
        },
{
    let a = trim_chars(raw);
    let b = trim_start_char_chars(&a, '=');
    let value = trim_value_chars(&b);
    let c = trim_char_chars(&value, '"');
    let unquoted = trim_char_chars(&c, '\'');
    if unquoted.len() == 0 {
        None
    } else {
        Some(unquoted)
    }
}

/// The text of a text value (`= "text";`), or `None` when it is empty.
pub fn parse_text_value(raw: &str) -> (r: Option<String>)
    ensures
        match r {
            Some(v) => spec_parse_text_value(raw@) == Some(v@),
            None => spec_parse_text_value(raw@) is None,
        },
{
    match parse_text_value_chars(&chars_of(raw)) {
        Some(v) => Some(string_of(&v)),
        None => None,
    }
}

fn parse_script_action_chars(raw: &Vec<char>) -> (r: Option<ScriptAction>)
    ensures
        match r {
            Some(a) => spec_parse_script_action(raw@) == Some(a@),
            None => spec_parse_script_action(raw@) is None,
        },
{
    let cleaned = trim_value_chars(raw);
    proof {
        reveal_strlit("change_scene");
    }
    if starts_with_chars(&cleaned, &literal("change_scene")) {
        let rest = sub_chars(&cleaned, 12, cleaned.len());
        assert(rest@ == cleaned@.skip(12));
        let a = trim_chars(&rest);
        let b = trim_char_chars(&a, '"');
        let path = trim_char_chars(&b, '\'');
        if path.len() > 0 {
            return Some(ScriptAction::ChangeScene(string_of(&path)));
        }
    }
    if chars_eq(&cleaned, &literal("reload_scene")) {
        return Some(ScriptAction::ReloadScene);
    }
    None
}

/// The collision action a script line names, if it names one.
pub fn parse_script_action(raw: &str) -> (r: Option<ScriptAction>)
    ensures
        match r {
            Some(a) => spec_parse_script_action(raw@) == Some(a@),
            None => spec_parse_script_action(raw@) is None,
        },
{
    parse_script_action_chars(&chars_of(raw))
}

fn eq_lit(s: &Vec<char>, lit: &str) -> (r: bool)
    ensures
        r == (s@ == lit@),
{
    chars_eq(s, &literal(lit))
}

fn message_with(prefix: &Vec<char>, suffix: &str) -> (r: String)
    ensures
        r@ == prefix@ + suffix@,
{
    let mut s = string_of(prefix);
    s.append(suffix);
    s
}

fn quoted_message(head: &str, middle: &Vec<char>, tail: &str) -> (r: String)
    ensures
        r@ == head@ + middle@ + tail@,
{
    let mut s = String::from_str(head);
    s.append(string_of(middle).as_str());
    s.append(tail);
    s
}

fn numeric_mismatch(token: &Vec<char>, rest: &Vec<char>) -> (r: String)
    ensures
        r@ == token@ + " esperava um número, mas recebeu '"@ + rest@ + "'."@,
{
    let mut s = string_of(token);
    s.append(" esperava um número, mas recebeu '");
    s.append(string_of(rest).as_str());
    s.append("'.");
    s
}

fn directive_error_exec(clean: &Vec<char>) -> (r: Option<String>)
    ensures
        match r {
            Some(m) => directive_error(clean@) == Some(m@),
            None => directive_error(clean@) is None,
        },
{
    let k = find_space(clean);
    proof {
        lemma_first_space_index(clean@);
    }
    let token = sub_chars(clean, 0, k);
    let after = sub_chars(clean, k, clean.len());
    assert(after@ == clean@.skip(k as int));
    let rest = trim_chars(&after);
    if eq_lit(&token, "@move_x") || eq_lit(&token, "@move_y") || eq_lit(&token, "@rotate_speed")
        || eq_lit(&token, "@player_controller") {
        if rest.len() == 0 {
            Some(message_with(&token, " precisa de um número."))
        } else if !is_float_literal_chars(&trim_value_chars(&rest)) {
            Some(numeric_mismatch(&token, &rest))
        } else {
            None
        }
    } else if eq_lit(&token, "@camera_follow") {
        if rest.len() > 0 {
            Some(String::from_str("@camera_follow não aceita argumentos."))
        } else {
            None
        }
    } else if eq_lit(&token, "@start_message") {
        if parse_text_value_chars(&rest).is_none() {
            Some(String::from_str("@start_message precisa de um texto não vazio."))
        } else {
            None
        }
    } else if eq_lit(&token, "@on_update") {
        if rest.len() == 0 {
            Some(
                String::from_str("@on_update precisa de uma instrução ou descrição após a diretiva."),
            )
        } else {
            None
        }
    } else if eq_lit(&token, "@on_collision") {
        if parse_script_action_chars(&rest).is_none() {
            Some(
                String::from_str(
                    "@on_collision precisa de uma ação válida: change_scene \"caminho\" ou reload_scene.",
                ),
            )
        } else {
            None
        }
    } else {
        Some(quoted_message("Diretiva desconhecida '", &token, "'."))
    }
}

fn assignment_error_exec(clean: &Vec<char>) -> (r: Option<String>)
    requires
        clean@.contains('='),
    ensures
        match r {
            Some(m) => assignment_error(clean@) == Some(m@),
            None => assignment_error(clean@) is None,
        },
{
    let e = find_char(clean, '=');
    proof {
        lemma_first_index_of(clean@, '=');
        let w = choose|i: int| 0 <= i < clean@.len() && clean@[i] == '=';
        assert(e <= w);
    }
    let before = sub_chars(clean, 0, e);
    let after = sub_chars(clean, e + 1, clean.len());
    assert(after@ == clean@.skip(e + 1));
    let key = trim_chars(&before);
    let value = trim_value_chars(&after);
    if eq_lit(&key, "move_x") || eq_lit(&key, "move_y") || eq_lit(&key, "rotate_speed") || eq_lit(
        &key,
        "player_controller",
    ) || eq_lit(&key, "player_controller_speed") {
        if value.len() == 0 {
            Some(message_with(&key, " precisa de um número."))
        } else if !is_float_literal_chars(&value) {
            Some(numeric_mismatch(&key, &value))
        } else {
            None
        }
    } else if eq_lit(&key, "start_message") {
        if parse_text_value_chars(&value).is_none() {
            Some(String::from_str("start_message precisa de um texto não vazio."))
        } else {
            None
        }
    } else if eq_lit(&key, "camera_follow") {
        let lower = to_ascii_lower_chars(&value);
        if !eq_lit(&lower, "true") && !eq_lit(&lower, "false") {
            Some(String::from_str("camera_follow só aceita true ou false."))
        } else {
            None
        }
    } else {
        Some(quoted_message("Atribuição desconhecida '", &key, "'."))
    }
}

fn line_error_exec(clean: &Vec<char>) -> (r: Option<String>)
    ensures
        match r {
            Some(m) => line_error(clean@) == Some(m@),
            None => line_error(clean@) is None,
        },
{
    if clean.len() == 0 {
        None
    } else if clean[0] == '@' {
        directive_error_exec(clean)
    } else if contains_char(clean, '=') {
        assignment_error_exec(clean)
    } else {
        None
    }
}

/// Checks every line of a script and lists the errors in line order.
pub fn validate_script(code: &str) -> (r: Vec<ScriptError>)
    ensures
        errors_view(r@) == script_errors(code@),
{
    let c = chars_of(code);
    let mut errors: Vec<ScriptError> = Vec::new();
    let mut cur: Vec<char> = Vec::new();
    let mut done: usize = 0;
    let ghost mut lines: Seq<Seq<char>> = seq![];
    let mut i: usize = 0;
    while i < c.len()
        invariant
            i <= c.len(),
            pieces_by(c@.take(i as int), '\n') == lines.push(cur@),
            done == lines.len(),
            done + cur@.len() <= i,
            errors_view(errors@) == lines_errors(lines),
        decreases c.len() - i,
    {
        let ch = c[i];
        assert(c@.take(i + 1).drop_last() == c@.take(i as int));
        assert(c@.take(i + 1).last() == ch);
        if ch == '\n' {
            let clean = normalize_line_chars(&cur);
            let line_no = done + 1;
            let err = line_error_exec(&clean);
            let ghost old_errors = errors@;
            match err {
                Some(m) => {
                    errors.push(ScriptError { line: line_no, message: m });
                    assert(errors_view(errors@) == errors_view(old_errors).push(
                        (line_no as int, m@),
                    ));
                },
                None => {},
            }
            proof {
                let nl = lines.push(cur@);
                assert(nl.drop_last() == lines);
                assert(nl.last() == cur@);
                lines = nl;
            }
            done = line_no;
            cur = Vec::new();
            assert(pieces_by(c@.take(i + 1), '\n') == lines.push(cur@));
        } else {
            cur.push(ch);
            assert(pieces_by(c@.take(i + 1), '\n') =~= lines.push(cur@));
        }
        i += 1;
    }
    assert(c@.take(c@.len() as int) == c@);
    if cur.len() > 0 {
        let clean = normalize_line_chars(&cur);
        let line_no = done + 1;
        let ghost old_errors = errors@;
        match line_error_exec(&clean) {
            Some(m) => {
                errors.push(ScriptError { line: line_no, message: m });
                assert(errors_view(errors@) == errors_view(old_errors).push((line_no as int, m@)));
            },
            None => {},
        }
        proof {
            let nl = lines.push(cur@);
            assert(nl.drop_last() == lines);
            assert(lines_of(code@) == nl);
        }
    } else {
        assert(lines_of(code@) =~= lines);
    }
    errors
}

/// Each error as `Linha <n>: <message>`.
pub fn format_script_errors(errors: &[ScriptError]) -> (r: Vec<String>)
    ensures
        string_views(r@) == displayed(errors_view(errors@)),
{
    let mut out: Vec<String> = Vec::new();
    for i in 0..errors.len()
        invariant
            string_views(out@) == displayed(errors_view(errors@.take(i as int))),
    {
        let text = errors[i].display();
        let ghost before = out@;
        out.push(text);
        proof {
            let e = errors@[i as int];
            assert(errors@.take(i + 1) =~= errors@.take(i as int).push(e));
            assert(errors_view(errors@.take(i + 1)) =~= errors_view(errors@.take(i as int)).push(
                e@,
            ));
            assert(displayed(errors_view(errors@.take(i + 1))) =~= displayed(
                errors_view(errors@.take(i as int)),
            ).push(display_text(e@.0, e@.1)));
            assert(out@ =~= before.push(text));
            assert(string_views(out@) =~= string_views(before).push(
                text@,
            ));
        }
    }
    assert(errors@.take(errors@.len() as int) == errors@);
    out
}

/// The errors of a script, each as `Linha <n>: <message>`.
pub fn validate_rs2_source(source: &str) -> (r: Vec<String>)
    ensures
        string_views(r@) == displayed(script_errors(source@)),
{
    let errors = validate_script(source);
    format_script_errors(errors.as_slice())
}

// ── behaviour ────────────────────────────────────────────────

/// What a script makes its entity do. Numbers are kept as the literals the
/// script wrote, each one accepted by `f32::from_str`; a number the script
/// never sets is zero. The player speed is kept without its sign, as its
/// absolute value.
#[derive(Debug, Clone)]
pub struct ScriptBehavior {
    pub move_x: Option<String>,
    pub move_y: Option<String>,
    pub rotate_speed: Option<String>,
    pub player_controller_speed: Option<String>,
    pub camera_follow: bool,
    pub start_message: Option<String>,
    pub on_update: Vec<String>,
    pub on_collision: Vec<ScriptAction>,
}

/// The mathematical value of a [`ScriptBehavior`].
pub struct BehaviorModel {
    pub move_x: Option<Seq<char>>,
    pub move_y: Option<Seq<char>>,
    pub rotate_speed: Option<Seq<char>>,
    pub player_controller_speed: Option<Seq<char>>,
    pub camera_follow: bool,
    pub start_message: Option<Seq<char>>,
    pub on_update: Seq<Seq<char>>,
    pub on_collision: Seq<ActionModel>,
}

impl View for ScriptBehavior {
    type V = BehaviorModel;

    open spec fn view(&self) -> BehaviorModel {
        BehaviorModel {
            move_x: opt_view(self.move_x),
            move_y: opt_view(self.move_y),
            rotate_speed: opt_view(self.rotate_speed),
            player_controller_speed: opt_view(self.player_controller_speed),
            camera_follow: self.camera_follow,
            start_message: opt_view(self.start_message),
            on_update: string_views(self.on_update@),
            on_collision: self.on_collision@.map_values(|a: ScriptAction| a@),
        }
    }
}

/// The number a clean line gives after `key`: the line starts with `key`,
/// and what follows, without white space, a leading `=` and a final `;`,
/// is a number literal.
pub open spec fn number_after(clean: Seq<char>, key: Seq<char>) -> Option<Seq<char>> {
    if starts_with(clean, key) {
        let v = trim_value(trim_start_char(trim(clean.skip(key.len() as int)), '='));
        if is_float_literal(v) {
            Some(v)
        } else {
            None
        }
    } else {
        None
    }
}

/// `a` when it is a value, else `b`.
pub open spec fn first_some(a: Option<Seq<char>>, b: Option<Seq<char>>) -> Option<Seq<char>> {
    if a is Some {
        a
    } else {
        b
    }
}

/// The number a clean line sets under the first of two keys that gives one.
pub open spec fn number_of(clean: Seq<char>, k1: Seq<char>, k2: Seq<char>) -> Option<Seq<char>> {
    first_some(number_after(clean, k1), number_after(clean, k2))
}

pub open spec fn player_speed_of(clean: Seq<char>) -> Option<Seq<char>> {
    first_some(
        number_after(clean, "@player_controller"@),
        number_of(clean, "player_controller"@, "player_controller_speed"@),
    )
}

/// The start message a clean line sets: the text value after the first of
/// `@start_message` and `start_message` that begins the line.
pub open spec fn start_message_of(clean: Seq<char>) -> Option<Seq<char>> {
    if starts_with(clean, "@start_message"@) {
        spec_parse_text_value(clean.skip(14))
    } else if starts_with(clean, "start_message"@) {
        spec_parse_text_value(clean.skip(13))
    } else {
        None
    }
}

pub open spec fn sets_camera_follow(clean: Seq<char>) -> bool {
    clean == "@camera_follow"@ || clean == "camera_follow = true"@
}

/// The instruction of an `@on_update` line, when it holds one.
pub open spec fn on_update_of(clean: Seq<char>) -> Option<Seq<char>> {
    if starts_with(clean, "@on_update"@) && trim(clean.skip(10)).len() > 0 {
        Some(trim(clean.skip(10)))
    } else {
        None
    }
}

/// The action of an `@on_collision` line, when it names one.
pub open spec fn on_collision_of(clean: Seq<char>) -> Option<ActionModel> {
    if starts_with(clean, "@on_collision"@) {
        spec_parse_script_action(trim(clean.skip(13)))
    } else {
        None
    }
}

pub open spec fn opt_push<A>(s: Seq<A>, o: Option<A>) -> Seq<A> {
    match o {
        Some(a) => s.push(a),
        None => s,
    }
}

/// The behaviour after one more line: what the line sets replaces what
/// was set before, and its instructions and actions are added in order.
pub open spec fn behavior_step(b: BehaviorModel, line: Seq<char>) -> BehaviorModel {
    let clean = normalize_line(line);
    BehaviorModel {
        move_x: first_some(number_of(clean, "@move_x"@, "move_x"@), b.move_x),
        move_y: first_some(number_of(clean, "@move_y"@, "move_y"@), b.move_y),
        rotate_speed: first_some(number_of(clean, "@rotate_speed"@, "rotate_speed"@), b.rotate_speed),
        player_controller_speed: match player_speed_of(clean) {
            Some(v) => Some(without_sign(v)),
            None => b.player_controller_speed,
        },
        camera_follow: b.camera_follow || sets_camera_follow(clean),
        start_message: first_some(start_message_of(clean), b.start_message),
        on_update: opt_push(b.on_update, on_update_of(clean)),
        on_collision: opt_push(b.on_collision, on_collision_of(clean)),
    }
}

pub open spec fn empty_behavior() -> BehaviorModel {
    BehaviorModel {
        move_x: None,
        move_y: None,
        rotate_speed: None,
        player_controller_speed: None,
        camera_follow: false,
        start_message: None,
        on_update: seq![],
        on_collision: seq![],
    }
}

/// The behaviour that a list of lines describes, read in order.
pub open spec fn behavior_of(lines: Seq<Seq<char>>) -> BehaviorModel
    decreases lines.len(),
{
    if lines.len() == 0 {
        empty_behavior()
    } else {
        behavior_step(behavior_of(lines.drop_last()), lines.last())
    }
}

/// The behaviour a script's text describes.
pub open spec fn spec_parse_rs2_script(source: Seq<char>) -> BehaviorModel {
    behavior_of(lines_of(source))
}

fn number_after_chars(clean: &Vec<char>, key: &str) -> (r: Option<Vec<char>>)
    ensures
        match r {
            Some(v) => number_after(clean@, key@) == Some(v@),
            None => number_after(clean@, key@) is None,
        },
{
    let k = chars_of(key);
    if !starts_with_chars(clean, &k) {
        return None;
    }
    let rest = sub_chars(clean, k.len(), clean.len());
    assert(rest@ == clean@.skip(k@.len() as int));
    let a = trim_chars(&rest);
    let b = trim_start_char_chars(&a, '=');
    let v = trim_value_chars(&b);
    if is_float_literal_chars(&v) {
        Some(v)
    } else {
        None
    }
}

fn number_of_chars(clean: &Vec<char>, k1: &str, k2: &str) -> (r: Option<Vec<char>>)
    ensures
        match r {
            Some(v) => number_of(clean@, k1@, k2@) == Some(v@),
            None => number_of(clean@, k1@, k2@) is None,
        },
{
    match number_after_chars(clean, k1) {
        Some(v) => Some(v),
        None => number_after_chars(clean, k2),
    }
}

fn drop_sign_chars(v: &Vec<char>) -> (r: Vec<char>)
    ensures
        r@ == without_sign(v@),
{
    if v.len() > 0 && (v[0] == '+' || v[0] == '-') {
        sub_chars(v, 1, v.len())
    } else {
        sub_chars(v, 0, v.len())
    }
}

fn text_after_chars(clean: &Vec<char>, skip: usize) -> (r: Option<Vec<char>>)
    requires
        skip <= clean.len(),
    ensures
        match r {
            Some(v) => spec_parse_text_value(clean@.skip(skip as int)) == Some(v@),
            None => spec_parse_text_value(clean@.skip(skip as int)) is None,
        },
{
    let rest = sub_chars(clean, skip, clean.len());
    assert(rest@ == clean@.skip(skip as int));
    parse_text_value_chars(&rest)
}

fn start_message_chars(clean: &Vec<char>) -> (r: Option<Vec<char>>)
    ensures
        match r {
            Some(v) => start_message_of(clean@) == Some(v@),
            None => start_message_of(clean@) is None,
        },
{
    proof {
        reveal_strlit("@start_message");
        reveal_strlit("start_message");
    }
    if starts_with_chars(clean, &literal("@start_message")) {
        text_after_chars(clean, 14)
    } else if starts_with_chars(clean, &literal("start_message")) {
        text_after_chars(clean, 13)
    } else {
        None
    }
}

fn some_string(o: Option<Vec<char>>) -> (r: Option<String>)
    ensures
        opt_view(r) == match o {
            Some(v) => Some(v@),
            None => None::<Seq<char>>,
        },
{
    match o {
        Some(v) => Some(string_of(&v)),
        None => None,
    }
}

fn apply_behavior_line(b: &mut ScriptBehavior, line: &Vec<char>)
    ensures
        final(b)@ == behavior_step(old(b)@, line@),
{
    let clean = normalize_line_chars(line);
    proof {
        reveal_strlit("@on_update");
        reveal_strlit("@on_collision");
    }
    if let Some(v) = some_string(number_of_chars(&clean, "@move_x", "move_x")) {
        b.move_x = Some(v);
    }
    if let Some(v) = some_string(number_of_chars(&clean, "@move_y", "move_y")) {
        b.move_y = Some(v);
    }
    if let Some(v) = some_string(number_of_chars(&clean, "@rotate_speed", "rotate_speed")) {
        b.rotate_speed = Some(v);
    }
    let player = match number_after_chars(&clean, "@player_controller") {
        Some(v) => Some(v),
        None => number_of_chars(&clean, "player_controller", "player_controller_speed"),
    };
    if let Some(v) = player {
        b.player_controller_speed = Some(string_of(&drop_sign_chars(&v)));
    }
    if let Some(v) = some_string(start_message_chars(&clean)) {
        b.start_message = Some(v);
    }
    if eq_lit(&clean, "@camera_follow") || eq_lit(&clean, "camera_follow = true") {
        b.camera_follow = true;
    }
    if starts_with_chars(&clean, &literal("@on_update")) {
        let rest = sub_chars(&clean, 10, clean.len());
        assert(rest@ == clean@.skip(10));
        let instruction = trim_chars(&rest);
        if instruction.len() > 0 {
            let ghost before = b.on_update@;
            b.on_update.push(string_of(&instruction));
            assert(string_views(b.on_update@) =~= string_views(before).push(
                instruction@,
            ));
        }
    }
    if starts_with_chars(&clean, &literal("@on_collision")) {
        let rest = sub_chars(&clean, 13, clean.len());
        assert(rest@ == clean@.skip(13));
        let action_text = trim_chars(&rest);
        if let Some(action) = parse_script_action_chars(&action_text) {
            let ghost before = b.on_collision@;
            let ghost a = action@;
            b.on_collision.push(action);
            assert(b.on_collision@.map_values(|x: ScriptAction| x@) =~= before.map_values(
                |x: ScriptAction| x@,
            ).push(a));
        }
    }
}

/// Reads what a script makes its entity do, line by line.
pub fn parse_rs2_script(source: &str) -> (r: ScriptBehavior)
    ensures
        r@ == spec_parse_rs2_script(source@),
{
    let lines = lines_chars(&chars_of(source));
    let mut b = ScriptBehavior {
        move_x: None,
        move_y: None,
        rotate_speed: None,
        player_controller_speed: None,
        camera_follow: false,
        start_message: None,
        on_update: Vec::new(),
        on_collision: Vec::new(),
    };
    assert(b@.on_update =~= seq![]);
    assert(b@.on_collision =~= seq![]);
    for i in 0..lines.len()
        invariant
            b@ == behavior_of(views(lines@).take(i as int)),
    {
        assert(views(lines@).take(i + 1).drop_last() == views(lines@).take(i as int));
        apply_behavior_line(&mut b, &lines[i]);
    }
    assert(views(lines@).take(lines.len() as int) == views(lines@));
    b
}


// ── laws ─────────────────────────────────────────────────────

proof fn lemma_pieces_single(s: Seq<char>)
    requires
        forall|j: int| 0 <= j < s.len() ==> s[j] != '\n',
    ensures
        pieces_by(s, '\n') == seq![s],
    decreases s.len(),
{
    if s.len() == 0 {
        assert(s =~= Seq::<char>::empty());
        assert(seq![Seq::<char>::empty()] =~= seq![s]);
    } else {
        lemma_pieces_single(s.drop_last());
        assert(s.drop_last().push(s.last()) =~= s);
        assert(seq![s.drop_last()].update(0, s.drop_last().push(s.last())) =~= seq![s]);
    }
}

/// A text without line breaks is one line, with or without a final break.
proof fn lemma_one_line(line: Seq<char>)
    requires
        line.len() > 0,
        forall|j: int| 0 <= j < line.len() ==> line[j] != '\n',
    ensures
        lines_of(line) == seq![line],
        lines_of(line.push('\n')) == seq![line],
{
    lemma_pieces_single(line);
    assert(line.push('\n').drop_last() =~= line);
    assert(pieces_by(line.push('\n'), '\n') == seq![line].push(Seq::<char>::empty()));
    assert(seq![line].push(Seq::<char>::empty()).drop_last() =~= seq![line]);
}

proof fn lemma_trim_ends(s: Seq<char>)
    requires
        s.len() > 0,
        !is_white_space(s[0]),
        !is_white_space(s.last()),
    ensures
        trim(s) == s,
{
    assert(trim_start(s) == s);
    assert(trim_end(s) == s);
}

/// The errors of a one-line script are those of its line.
proof fn lemma_one_line_errors(line: Seq<char>)
    requires
        line.len() > 0,
        forall|j: int| 0 <= j < line.len() ==> line[j] != '\n',
    ensures
        line_error(normalize_line(line)) is None ==> script_errors(line) == Seq::<(int, Seq<char>)>::empty()
            && script_errors(line.push('\n')) == Seq::<(int, Seq<char>)>::empty(),
{
    lemma_one_line(line);
    assert(seq![line].drop_last() =~= Seq::<Seq<char>>::empty());
    assert(seq![line].last() == line);
    assert(lines_errors(Seq::<Seq<char>>::empty()) == Seq::<(int, Seq<char>)>::empty());
    if line_error(normalize_line(line)) is None {
        assert(lines_errors(seq![line]) == lines_errors(Seq::<Seq<char>>::empty()));
    }
}

pub open spec fn is_digit_text(d: Seq<char>) -> bool {
    d.len() > 0 && forall|i: int| 0 <= i < d.len() ==> is_ascii_digit(#[trigger] d[i])
}

proof fn lemma_digits_trim(digits: Seq<char>)
    requires
        is_digit_text(digits),
    ensures
        trim(digits) == digits,
        trim(seq![' '] + digits) == digits,
        trim_value(digits) == digits,
        trim_value(seq![' '] + digits) == digits,
        is_float_literal(digits),
        forall|j: int| 0 <= j < digits.len() ==> !is_white_space(#[trigger] digits[j]) && digits[j] != '\n'
            && digits[j] != '=',
{
    assert(is_ascii_digit(digits[0]));
    assert(is_ascii_digit(digits.last()));
    lemma_trim_ends(digits);
    let sp = seq![' '] + digits;
    assert(sp.drop_first() =~= digits);
    assert(trim_start(sp) == trim_start(digits));
    assert(trim_start(digits) == digits);
    assert(trim_end(digits) == digits);
    assert(trim_end_char(digits, ';') == digits);
    law_digits_are_float_literals(digits, None);
}

/// A directive that sets a number (`@move_x`, `@move_y`, `@rotate_speed`,
/// `@player_controller`) followed by a number written in digits is a valid
/// script: validation reports no error for it, with or without a final
/// line break.
pub proof fn law_numeric_directives_accept_digits(token: Seq<char>, digits: Seq<char>)
    requires
        token == "@move_x"@ || token == "@move_y"@ || token == "@rotate_speed"@ || token
            == "@player_controller"@,
        is_digit_text(digits),
    ensures
        script_errors(token + seq![' '] + digits) == Seq::<(int, Seq<char>)>::empty(),
        script_errors(token + seq![' '] + digits + seq!['\n']) == Seq::<(int, Seq<char>)>::empty(),
{
    reveal_strlit("@move_x");
    reveal_strlit("@move_y");
    reveal_strlit("@rotate_speed");
    reveal_strlit("@player_controller");
    reveal_strlit("//");
    assert(forall|j: int| 0 <= j < token.len() ==> !is_white_space(token[j]) && token[j] != '\n');
    assert(token.len() > 0 && token[0] == '@');
    lemma_digits_trim(digits);
    let line = token + seq![' '] + digits;
    let k = token.len() as int;
    assert forall|j: int| 0 <= j < line.len() implies line[j] != '\n' by {
        if j < k {
            assert(line[j] == token[j]);
        } else if j > k {
            assert(line[j] == digits[j - k - 1]);
        }
    }
    assert(line.last() == digits.last());
    lemma_trim_ends(line);
    assert(!starts_with(line, "//"@)) by {
        if starts_with(line, "//"@) {
            assert(line.take(2)[0] == "//"@[0]);
        }
    }
    assert(normalize_line(line) == line);
    crate::text::lemma_first_space_index(line);
    let f = first_space_index(line);
    if f < k {
        assert(line[f] == token[f]);
    }
    assert(line[k] == ' ');
    assert(f == k);
    assert(line.take(k) =~= token);
    assert(line.skip(k) =~= seq![' '] + digits);
    assert(directive_error(line) is None);
    lemma_one_line_errors(line);
    assert(line.push('\n') =~= token + seq![' '] + digits + seq!['\n']);
}

/// A key that takes a number (`move_x`, `move_y`, `rotate_speed`,
/// `player_controller`, `player_controller_speed`) assigned a number
/// written in digits (`key = 123`) is a valid script: validation reports no
/// error for it, with or without a final line break.
pub proof fn law_numeric_assignments_accept_digits(key: Seq<char>, digits: Seq<char>)
    requires
        key == "move_x"@ || key == "move_y"@ || key == "rotate_speed"@ || key == "player_controller"@
            || key == "player_controller_speed"@,
        is_digit_text(digits),
    ensures
        script_errors(key + seq![' ', '=', ' '] + digits) == Seq::<(int, Seq<char>)>::empty(),
        script_errors(key + seq![' ', '=', ' '] + digits + seq!['\n']) == Seq::<(int, Seq<char>)>::empty(),
{
    reveal_strlit("move_x");
    reveal_strlit("move_y");
    reveal_strlit("rotate_speed");
    reveal_strlit("player_controller");
    reveal_strlit("player_controller_speed");
    reveal_strlit("//");
    assert(forall|j: int| 0 <= j < key.len() ==> !is_white_space(key[j]) && key[j] != '\n' && key[j] != '=');
    assert(key.len() > 0 && key[0] != '@' && key[0] != '/');
    lemma_digits_trim(digits);
    let line = key + seq![' ', '=', ' '] + digits;
    let k = key.len() as int;
    assert forall|j: int| 0 <= j < line.len() implies line[j] != '\n' by {
        if j < k {
            assert(line[j] == key[j]);
        } else if j > k + 2 {
            assert(line[j] == digits[j - k - 3]);
        }
    }
    assert(line.last() == digits.last());
    lemma_trim_ends(line);
    assert(!starts_with(line, "//"@)) by {
        if starts_with(line, "//"@) {
            assert(line.take(2)[0] == "//"@[0]);
        }
    }
    assert(normalize_line(line) == line);
    assert(line[k + 1] == '=');
    assert(line.contains('='));
    assert forall|j: int| 0 <= j < k + 1 implies line[j] != '=' by {
        if j < k {
            assert(line[j] == key[j]);
        }
    }
    lemma_first_index_unique(line, '=', k + 1);
    let before = line.take(k + 1);
    assert(before =~= key.push(' '));
    assert(trim_start(before) == before);
    assert(before.drop_last() =~= key);
    assert(trim_end(before) == trim_end(key));
    assert(trim_end(key) == key);
    assert(line.skip(k + 2) =~= seq![' '] + digits);
    assert(assignment_error(line) is None);
    lemma_one_line_errors(line);
    assert(line.push('\n') =~= key + seq![' ', '=', ' '] + digits + seq!['\n']);
}

/// Whether a clean line asks the camera to follow the entity, in either
/// of its two spellings.
proof fn lemma_camera_follow_lines(lines: Seq<Seq<char>>)
    ensures
        behavior_of(lines).camera_follow <==> exists|i: int|
            0 <= i < lines.len() && (#[trigger] normalize_line(lines[i]) == "@camera_follow"@ || normalize_line(
                lines[i],
            ) == "camera_follow = true"@),
    decreases lines.len(),
{
    if lines.len() > 0 {
        let d = lines.drop_last();
        lemma_camera_follow_lines(d);
        if exists|i: int|
            0 <= i < d.len() && (#[trigger] normalize_line(d[i]) == "@camera_follow"@ || normalize_line(d[i])
                == "camera_follow = true"@) {
            let i = choose|i: int|
                0 <= i < d.len() && (#[trigger] normalize_line(d[i]) == "@camera_follow"@ || normalize_line(d[i])
                    == "camera_follow = true"@);
            assert(lines[i] == d[i]);
        }
        if exists|i: int|
            0 <= i < lines.len() && (#[trigger] normalize_line(lines[i]) == "@camera_follow"@ || normalize_line(
                lines[i],
            ) == "camera_follow = true"@) {
            let i = choose|i: int|
                0 <= i < lines.len() && (#[trigger] normalize_line(lines[i]) == "@camera_follow"@ || normalize_line(
                    lines[i],
                ) == "camera_follow = true"@);
            if i < d.len() {
                assert(d[i] == lines[i]);
            } else {
                assert(lines[i] == lines.last());
            }
        }
    }
}

/// The camera follows the entity exactly when some line of the script,
/// without surrounding white space, is `@camera_follow` or
/// `camera_follow = true`: the two spellings mean the same.
pub proof fn law_camera_follow_either_spelling(source: Seq<char>)
    ensures
        spec_parse_rs2_script(source).camera_follow <==> exists|i: int|
            0 <= i < lines_of(source).len() && (#[trigger] normalize_line(lines_of(source)[i]) == "@camera_follow"@
                || normalize_line(lines_of(source)[i]) == "camera_follow = true"@),
{
    lemma_camera_follow_lines(lines_of(source));
}


/// A directive that sets a number, followed by a number written in digits,
/// sets that number in the behaviour read from the script: `@move_x`,
/// `@move_y` and `@rotate_speed` their own value, `@player_controller` the
/// player speed.
pub proof fn law_numeric_directives_are_read(token: Seq<char>, digits: Seq<char>)
    requires
        token == "@move_x"@ || token == "@move_y"@ || token == "@rotate_speed"@ || token
            == "@player_controller"@,
        is_digit_text(digits),
    ensures
        ({
            let b = spec_parse_rs2_script(token + seq![' '] + digits);
            &&& token == "@move_x"@ ==> b.move_x == Some(digits)
            &&& token == "@move_y"@ ==> b.move_y == Some(digits)
            &&& token == "@rotate_speed"@ ==> b.rotate_speed == Some(digits)
            &&& token == "@player_controller"@ ==> b.player_controller_speed == Some(digits)
        }),
{
    reveal_strlit("@move_x");
    reveal_strlit("@move_y");
    reveal_strlit("@rotate_speed");
    reveal_strlit("@player_controller");
    reveal_strlit("//");
    assert(forall|j: int| 0 <= j < token.len() ==> !is_white_space(token[j]) && token[j] != '\n');
    assert(token.len() > 0 && token[0] == '@');
    lemma_digits_trim(digits);
    let line = token + seq![' '] + digits;
    let k = token.len() as int;
    assert forall|j: int| 0 <= j < line.len() implies line[j] != '\n' by {
        if j < k {
            assert(line[j] == token[j]);
        } else if j > k {
            assert(line[j] == digits[j - k - 1]);
        }
    }
    assert(line.last() == digits.last());
    lemma_trim_ends(line);
    assert(!starts_with(line, "//"@)) by {
        if starts_with(line, "//"@) {
            assert(line.take(2)[0] == "//"@[0]);
        }
    }
    assert(normalize_line(line) == line);
    lemma_one_line(line);
    assert(seq![line].drop_last() =~= Seq::<Seq<char>>::empty());
    assert(line.take(k) =~= token);
    assert(starts_with(line, token));
    assert(line.skip(k) =~= seq![' '] + digits);
    assert(trim_start_char(digits, '=') == digits) by {
        assert(is_ascii_digit(digits[0]));
    }
    assert(number_after(line, token) == Some(digits));
    assert(without_sign(digits) == digits) by {
        assert(is_ascii_digit(digits[0]));
    }
}

} // verus!
