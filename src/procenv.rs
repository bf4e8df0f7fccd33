//! Command templates: a command line and its environment, with `{{name}}`
//! placeholders filled in at dispatch time.

use std::collections::HashMap;
use vstd::prelude::*;

verus! {

/// The text that `text_placeholder` makes of `text` once each `{{name}}` in
/// it has been replaced by what `placeholder_text` gives for the value that
/// `values` holds for `name`, if any.
pub uninterp spec fn filled_text(text: Seq<char>, values: Map<&str, &str>) -> Seq<char>;

/// What stands in for a placeholder: its value, or, where it has none, the
/// placeholder itself, written back as `{{name}}` (spaces that stood
/// around the name inside the braces are not kept).
pub fn placeholder_text(found: Option<&str>, name: &str) -> (r: String)
    ensures
        r@ == match found {
            Some(v) => v@,
            None => "{{"@ + name@ + "}}"@,
        },
{
    match found {
        Some(v) => v.to_string(),
        None => {
            let mut s = "{{".to_string();
            s.append(name);
            s.append("}}");
            s
        },
    }
}

/// Whether `s` holds the opening mark `{{` of a placeholder.
pub open spec fn has_open_mark(s: Seq<char>) -> bool {
    exists|i: int| 0 <= i < s.len() - 1 && s[i] == '{' && #[trigger] s[i + 1] == '{'
}

/// Whether `n` can stand between `{{` and `}}` as a placeholder name that
/// is read back as it is: no brace and no space in it.
pub open spec fn plain_name(n: Seq<char>) -> bool {
    forall|i: int| 0 <= i < n.len() ==> #[trigger] n[i] != '{' && n[i] != '}' && n[i] != ' '
}

/// Relies on `text_placeholder::Template::new` and `fill_with_function`:
/// the text is cut into literal pieces and `{{name}}` placeholders (the
/// name is what stands up to the next `}}`, trimmed of spaces), and each
/// placeholder is replaced by what `placeholder_text` gives for it. The
/// result depends on the text and on the map's contents alone. A text
/// without `{{` comes back as it is; a text that is one placeholder with a
/// plain name becomes the name's value, or stays as it is where the name
/// has none.
#[verifier::external_body]
fn fill_placeholders(text: &str, values: &HashMap<&str, &str>) -> (r: String)
    ensures
        r@ == filled_text(text@, values@),
        !has_open_mark(text@) ==> r@ == text@,
        forall|k: &str|
            #[trigger] values@.contains_key(k) && plain_name(k@) && text@ == "{{"@ + k@ + "}}"@
                ==> r@ == values@[k]@,
        forall|n: Seq<char>|
            plain_name(n) && text@ == "{{"@ + n + "}}"@ && (forall|k: &str|
                #[trigger] values@.contains_key(k) ==> k@ != n) ==> r@ == text@,
{
    text_placeholder::Template::new(text).fill_with_function(
        |name| Some(std::borrow::Cow::Owned(placeholder_text(values.get(name).copied(), name))),
    ).unwrap_or_default()
}

/// The characters that separate the tokens of a command line.
pub open spec fn is_separator(c: char) -> bool {
    c == ' ' || c == '\t'
}

/// The pieces of `s` between separators, from left to right; two adjacent
/// separators give an empty piece, so there is always one piece more than
/// there are separators.
pub open spec fn split_tokens(s: Seq<char>) -> Seq<Seq<char>>
    decreases s.len(),
{
    if s.len() == 0 {
        seq![Seq::<char>::empty()]
    } else {
        let prev = split_tokens(s.drop_last());
        if is_separator(s.last()) {
            prev.push(Seq::<char>::empty())
        } else {
            prev.update(prev.len() - 1, prev.last().push(s.last()))
        }
    }
}

/// A line always splits into at least one piece.
proof fn lemma_split_tokens_nonempty(s: Seq<char>)
    ensures
        split_tokens(s).len() >= 1,
    decreases s.len(),
{
    if s.len() > 0 {
        lemma_split_tokens_nonempty(s.drop_last());
    }
}

/// The views of a vector of strings.
pub open spec fn string_views(v: Seq<String>) -> Seq<Seq<char>> {
    v.map_values(|t: String| t@)
}

/// Each token filled with the given placeholder values.
pub open spec fn render_tokens(tokens: Seq<Seq<char>>, values: Map<&str, &str>) -> Seq<Seq<char>> {
    tokens.map_values(|t: Seq<char>| filled_text(t, values))
}

/// Splits `s` on spaces and tabs, keeping empty pieces.
fn split_on_separators(s: &str) -> (r: Vec<String>)
    ensures
        string_views(r@) == split_tokens(s@),
{
    let n = s.unicode_len();
    let mut tokens: Vec<String> = Vec::new();
    let mut start: usize = 0;
    let mut i: usize = 0;
    proof {
        assert(s@.take(0) =~= Seq::<char>::empty());
        assert(string_views(tokens@).push(s@.subrange(0, 0)) =~= seq![Seq::<char>::empty()]);
    }
    while i < n
        invariant
            n == s@.len(),
            start <= i <= n,
            string_views(tokens@).push(s@.subrange(start as int, i as int)) == split_tokens(
                s@.take(i as int),
            ),
        decreases n - i,
    {
        let c = s.get_char(i);
        let ghost prev = s@.take(i as int);
        assert(s@.take(i + 1).drop_last() =~= prev);
        assert(s@.take(i + 1).last() == c);
        if c == ' ' || c == '\t' {
            let piece = s.substring_char(start, i).to_string();
            proof {
                assert(string_views(tokens@.push(piece)) =~= string_views(tokens@).push(piece@));
            }
            tokens.push(piece);
            start = i + 1;
            assert(s@.subrange(start as int, (i + 1) as int) =~= Seq::<char>::empty());
        } else {
            assert(s@.subrange(start as int, (i + 1) as int) =~= s@.subrange(
                start as int,
                i as int,
            ).push(c));
            proof {
                lemma_split_tokens_nonempty(prev);
                let v = string_views(tokens@);
                assert(v.push(s@.subrange(start as int, i as int)).update(
                    v.len() as int,
                    s@.subrange(start as int, (i + 1) as int),
                ) =~= v.push(s@.subrange(start as int, (i + 1) as int)));
            }
        }
        i = i + 1;
    }
    let last = s.substring_char(start, n).to_string();
    proof {
        assert(s@.take(n as int) =~= s@);
        assert(string_views(tokens@.push(last)) =~= string_views(tokens@).push(last@));
    }
    tokens.push(last);
    tokens
}

/// How the command of a template is written.
#[derive(Debug)]
pub enum CmdDefinition {
    /// One line, split on spaces and tabs.
    ToSplit(String),
    /// Arguments given one by one.
    Splitted(Vec<String>),
}

/// What a command holds, as text.
pub enum CommandView {
    Line(Seq<char>),
    Args(Seq<Seq<char>>),
}

impl View for CmdDefinition {
    type V = CommandView;

    open spec fn view(&self) -> CommandView {
        match self {
            CmdDefinition::ToSplit(c) => CommandView::Line(c@),
            CmdDefinition::Splitted(v) => CommandView::Args(string_views(v@)),
        }
    }
}

/// The tokens of a command before any placeholder is filled.
pub open spec fn command_tokens(c: CommandView) -> Seq<Seq<char>> {
    match c {
        CommandView::Line(l) => split_tokens(l),
        CommandView::Args(a) => a,
    }
}

impl CmdDefinition {
    /// The tokens of the command before any placeholder is filled.
    pub open spec fn tokens(&self) -> Seq<Seq<char>> {
        command_tokens(self@)
    }

    /// A command written as one line.
    pub fn from_line(line: &str) -> (r: CmdDefinition)
        ensures
            r@ == CommandView::Line(line@),
    {
        CmdDefinition::ToSplit(line.to_string())
    }

    /// A command given as a list of arguments.
    pub fn from_args(args: &[&str]) -> (r: CmdDefinition)
        ensures
            r@ == CommandView::Args(args@.map_values(|a: &str| a@)),
    {
        CmdDefinition::Splitted(to_strings(args))
    }

    /// The command's tokens, each with its placeholders filled from
    /// `placeholders`.
    pub fn cmd_to_arr_replacements(&self, placeholders: &HashMap<&str, &str>) -> (r: Vec<String>)
        ensures
            string_views(r@) == render_tokens(self.tokens(), placeholders@),
    {
        match self {
            CmdDefinition::Splitted(x) => fill_each(x, placeholders),
            CmdDefinition::ToSplit(c) => {
                let parts = split_on_separators(c.as_str());
                fill_each(&parts, placeholders)
            },
        }
    }
}

/// Owned copies of the given strings.
fn to_strings(items: &[&str]) -> (r: Vec<String>)
    ensures
        string_views(r@) == items@.map_values(|a: &str| a@),
{
    let mut v: Vec<String> = Vec::new();
    for i in 0..items.len()
        invariant
            string_views(v@) == items@.take(i as int).map_values(|a: &str| a@),
    {
        let t = items[i].to_string();
        proof {
            assert(string_views(v@.push(t)) =~= string_views(v@).push(t@));
            assert(items@.take(i + 1) =~= items@.take(i as int).push(items@[i as int]));
            assert(items@.take(i + 1).map_values(|a: &str| a@) =~= items@.take(
                i as int,
            ).map_values(|a: &str| a@).push(items@[i as int]@));
        }
        v.push(t);
    }
    assert(items@.take(items@.len() as int) =~= items@);
    v
}

/// Fills the placeholders of each string of `texts`.
fn fill_each(texts: &Vec<String>, placeholders: &HashMap<&str, &str>) -> (r: Vec<String>)
    ensures
        string_views(r@) == render_tokens(string_views(texts@), placeholders@),
{
    let mut out: Vec<String> = Vec::new();
    for i in 0..texts.len()
        invariant
            string_views(out@) == render_tokens(string_views(texts@), placeholders@).take(i as int),
    {
        let f = fill_placeholders(texts[i].as_str(), placeholders);
        proof {
            assert(string_views(out@.push(f)) =~= string_views(out@).push(f@));
            assert(render_tokens(string_views(texts@), placeholders@).take(i + 1) =~= render_tokens(
                string_views(texts@),
                placeholders@,
            ).take(i as int).push(f@));
        }
        out.push(f);
    }
    assert(render_tokens(string_views(texts@), placeholders@).take(texts@.len() as int)
        =~= render_tokens(string_views(texts@), placeholders@));
    out
}

impl Clone for CmdDefinition {
    fn clone(&self) -> (r: Self)
        ensures
            r@ == self@,
    {
        match self {
            CmdDefinition::ToSplit(c) => CmdDefinition::ToSplit(c.clone()),
            CmdDefinition::Splitted(v) => CmdDefinition::Splitted(clone_strings(v)),
        }
    }
}

impl Default for CmdDefinition {
    fn default() -> (r: Self)
        ensures
            r@ == CommandView::Line(Seq::<char>::empty()),
    {
        CmdDefinition::ToSplit(String::new())
    }
}

impl From<&str> for CmdDefinition {
    fn from(value: &str) -> Self {
        CmdDefinition::from_line(value)
    }
}

impl vstd::std_specs::convert::FromSpecImpl<&str> for CmdDefinition {
    open spec fn obeys_from_spec() -> bool {
        false
    }

    open spec fn from_spec(v: &str) -> Self {
        vstd::pervasive::arbitrary()
    }
}

impl From<Vec<&str>> for CmdDefinition {
    fn from(v: Vec<&str>) -> Self {
        CmdDefinition::from_args(v.as_slice())
    }
}

impl vstd::std_specs::convert::FromSpecImpl<Vec<&str>> for CmdDefinition {
    open spec fn obeys_from_spec() -> bool {
        false
    }

    open spec fn from_spec(v: Vec<&str>) -> Self {
        vstd::pervasive::arbitrary()
    }
}

/// Where an environment entry `NAME=value` splits: at its first `=`, or
/// at 0 where it holds none.
pub open spec fn env_split_point(e: Seq<char>) -> int {
    let p = first_equals(e);
    if p < e.len() {
        p
    } else {
        0
    }
}

/// The index of the first `=` in `e`, or its length where it holds none.
pub open spec fn first_equals(e: Seq<char>) -> int
    decreases e.len(),
{
    if e.len() == 0 {
        0
    } else if e[0] == '=' {
        0
    } else {
        1 + first_equals(e.drop_first())
    }
}

proof fn lemma_first_equals(e: Seq<char>, k: int)
    requires
        0 <= k <= e.len(),
        forall|j: int| 0 <= j < k ==> e[j] != '=',
        k == e.len() || e[k] == '=',
    ensures
        first_equals(e) == k,
    decreases k,
{
    if k > 0 {
        lemma_first_equals(e.drop_first(), k - 1);
    }
}

/// The name of an environment entry: what stands before its first `=`.
pub open spec fn env_name(e: Seq<char>) -> Seq<char> {
    e.take(env_split_point(e))
}

/// The value of an environment entry: what follows the split point, past
/// the one character that stands there.
pub open spec fn env_value(e: Seq<char>) -> Seq<char> {
    let p = env_split_point(e);
    if p + 1 <= e.len() {
        e.skip(p + 1)
    } else {
        Seq::<char>::empty()
    }
}

/// Splits one environment entry into its name and its value.
fn split_env_entry(e: &str) -> (r: (&str, &str))
    ensures
        r.0@ == env_name(e@),
        r.1@ == env_value(e@),
{
    let n = e.unicode_len();
    let mut i: usize = 0;
    while i < n && e.get_char(i) != '='
        invariant
            n == e@.len(),
            i <= n,
            forall|j: int| 0 <= j < i ==> e@[j] != '=',
        decreases n - i,
    {
        i = i + 1;
    }
    proof {
        lemma_first_equals(e@, i as int);
    }
    let p = if i < n {
        i
    } else {
        0
    };
    let start = if p + 1 <= n {
        p + 1
    } else {
        n
    };
    let name = e.substring_char(0, p);
    let value = e.substring_char(start, n);
    assert(name@ =~= env_name(e@));
    assert(value@ =~= env_value(e@));
    (name, value)
}

/// A copy of a vector of strings.
pub fn clone_strings(v: &Vec<String>) -> (r: Vec<String>)
    ensures
        r@ == v@,
{
    let r = v.clone();
    proof {
        assert forall|i: int| 0 <= i < v@.len() implies r@[i] == v@[i] by {
            assert(cloned::<String>(v[i], r[i]));
        }
        assert(r@ =~= v@);
    }
    r
}

/// What a process environment holds, as text.
pub struct ProcEnvView {
    pub wd: Seq<char>,
    pub env: Seq<Seq<char>>,
    pub cmd: CommandView,
    pub timeout: Option<u32>,
    pub encoding: Seq<char>,
    pub channel: Seq<char>,
}

/// How to run the process that fulfills a request: working directory,
/// environment entries `NAME=value`, command, timeout in milliseconds,
/// output encoding and channel.
#[derive(Debug)]
pub struct ProcEnv {
    pub wd: String,
    pub env: Vec<String>,
    pub cmd: CmdDefinition,
    pub timeout: Option<u32>,
    pub encoding: String,
    pub channel: String,
}

impl View for ProcEnv {
    type V = ProcEnvView;

    open spec fn view(&self) -> ProcEnvView {
        ProcEnvView {
            wd: self.wd@,
            env: string_views(self.env@),
            cmd: self.cmd@,
            timeout: self.timeout,
            encoding: self.encoding@,
            channel: self.channel@,
        }
    }
}

/// The timeout that a new template gets, in milliseconds.
pub const DEFAULT_TIMEOUT_MS: u32 = 1000;

/// One name and value of the environment, with its placeholders filled.
pub open spec fn env_entry_filled(e: Seq<char>, values: Map<&str, &str>) -> (Seq<char>, Seq<char>) {
    (env_name(e), filled_text(env_value(e), values))
}

impl ProcEnv {
    /// A template whose command is one line to split.
    pub fn new(wd: &str, env: Vec<String>, cmd: &str, encoding: &str) -> (r: Self)
        ensures
            r@ == (ProcEnvView {
                wd: wd@,
                env: string_views(env@),
                cmd: CommandView::Line(cmd@),
                timeout: Some(DEFAULT_TIMEOUT_MS),
                encoding: encoding@,
                channel: "cmdline"@,
            }),
    {
        ProcEnv {
            wd: wd.to_string(),
            env,
            cmd: CmdDefinition::from_line(cmd),
            encoding: encoding.to_string(),
            timeout: Some(DEFAULT_TIMEOUT_MS),
            channel: "cmdline".to_string(),
        }
    }

    /// A template whose command is a list of arguments.
    pub fn new_v(wd: &str, env: Vec<&str>, cmd: &[&str], encoding: &str) -> (r: Self)
        ensures
            r@ == (ProcEnvView {
                wd: wd@,
                env: env@.map_values(|e: &str| e@),
                cmd: CommandView::Args(cmd@.map_values(|a: &str| a@)),
                timeout: Some(DEFAULT_TIMEOUT_MS),
                encoding: encoding@,
                channel: "cmdline"@,
            }),
    {
        ProcEnv {
            wd: wd.to_string(),
            env: to_strings(env.as_slice()),
            cmd: CmdDefinition::from_args(cmd),
            timeout: Some(DEFAULT_TIMEOUT_MS),
            encoding: encoding.to_string(),
            channel: "cmdline".to_string(),
        }
    }

    /// The command's tokens, each with its placeholders filled.
    pub fn cmd_to_arr_replacements(&self, placeholders: &HashMap<&str, &str>) -> (r: Vec<String>)
        ensures
            string_views(r@) == render_tokens(self.cmd.tokens(), placeholders@),
    {
        self.cmd.cmd_to_arr_replacements(placeholders)
    }

    /// Each environment entry split into its name and its value, at its
    /// first `=`. This is total: an entry without `=` splits at its start,
    /// so its name is empty and its value is the entry without its first
    /// character, and an empty entry gives two empty strings.
    pub fn get_env(&self) -> (r: Vec<(&str, &str)>)
        ensures
            r@.len() == self.env@.len(),
            forall|i: int|
                0 <= i < r@.len() ==> r@[i].0@ == env_name(self.env@[i]@) && r@[i].1@ == env_value(
                    self.env@[i]@,
                ),
    {
        let mut out: Vec<(&str, &str)> = Vec::new();
        for i in 0..self.env.len()
            invariant
                out@.len() == i,
                forall|k: int|
                    0 <= k < i ==> out@[k].0@ == env_name(self.env@[k]@) && out@[k].1@ == env_value(
                        self.env@[k]@,
                    ),
        {
            let pair = split_env_entry(self.env[i].as_str());
            out.push(pair);
        }
        out
    }

    /// Each environment entry split into its name and its value, the value
    /// with its placeholders filled.
    pub fn get_env_replacements(&self, placeholders: &HashMap<&str, &str>) -> (r: Vec<(&str, String)>)
        ensures
            r@.len() == self.env@.len(),
            forall|i: int|
                0 <= i < r@.len() ==> (r@[i].0@, r@[i].1@) == env_entry_filled(
                    self.env@[i]@,
                    placeholders@,
                ),
    {
        let pairs = self.get_env();
        let mut out: Vec<(&str, String)> = Vec::new();
        for i in 0..pairs.len()
            invariant
                pairs@.len() == self.env@.len(),
                forall|k: int|
                    0 <= k < pairs@.len() ==> pairs@[k].0@ == env_name(self.env@[k]@)
                        && pairs@[k].1@ == env_value(self.env@[k]@),
                out@.len() == i,
                forall|k: int|
                    0 <= k < i ==> (out@[k].0@, out@[k].1@) == env_entry_filled(
                        self.env@[k]@,
                        placeholders@,
                    ),
        {
            let (name, value) = pairs[i];
            let filled = fill_placeholders(value, placeholders);
            out.push((name, filled));
        }
        out
    }
}

impl Clone for ProcEnv {
    fn clone(&self) -> (r: Self)
        ensures
            r@ == self@,
    {
        ProcEnv {
            wd: self.wd.clone(),
            env: clone_strings(&self.env),
            cmd: self.cmd.clone(),
            timeout: self.timeout,
            encoding: self.encoding.clone(),
            channel: self.channel.clone(),
        }
    }
}

impl Default for ProcEnv {
    fn default() -> (r: Self)
        ensures
            r@ == (ProcEnvView {
                wd: Seq::<char>::empty(),
                env: Seq::<Seq<char>>::empty(),
                cmd: CommandView::Line(Seq::<char>::empty()),
                timeout: None,
                encoding: Seq::<char>::empty(),
                channel: Seq::<char>::empty(),
            }),
    {
        let env: Vec<String> = Vec::new();
        assert(string_views(env@) =~= Seq::<Seq<char>>::empty());
        ProcEnv {
            wd: String::new(),
            env,
            cmd: CmdDefinition::default(),
            timeout: None,
            encoding: String::new(),
            channel: String::new(),
        }
    }
}

} // verus!
