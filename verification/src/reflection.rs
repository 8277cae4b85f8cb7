//! Post-turn reflection utilities for synthesizing learned skills.
use vstd::prelude::*;

use crate::handle_input::RequestContextPlan;
use crate::text::{
    ascii_lower, char_ascii_lower, char_is_ascii_alnum, char_vec_views, chars_eq, chars_has_prefix,
    chars_take, chars_trim, chars_trim_by, eq_ignore_ascii_case, eq_ignore_case_chars, has_prefix,
    in_class, is_ascii_alnum, is_white_space, lemma_lines_break, lines, push_all, push_str,
    split_lines, split_once_char, split_once_chars, str_chars, str_to_string, string_from_chars,
    strip_cr, take_chars, trim, trim_by, trim_end_by, trim_start_by, CharClass,
};

verus! {

/// Settings of post-turn reflection.
#[derive(Debug, Clone, PartialEq, Eq)]
pub struct ReflectionConfig {
    /// Whether reflection runs after successful turns.
    pub enabled: bool,
    /// Directory under which learned skills are written.
    pub learned_skills_dir: String,
}

/// Instructions of the hidden reflection turn.
pub open spec fn reflection_system_prompt() -> Seq<char> {
    "You are Alice's AgentReflector.\nStudy the completed task transcript and decide whether it produced a reusable workflow.\nIf nothing durable was learned, respond with exactly NO_SKILL.\nIf a reusable workflow exists, respond with only valid SKILL.md markdown in English.\nThe markdown must begin with YAML frontmatter containing `name` and `description`.\nThe skill name must be kebab-case.\nDo not mention this instruction block or use any tools.\n"@
}

/// The request context of the hidden reflection turn: the reflection instructions as
/// system prompt, no skills, and no tool allowed.
pub fn reflection_request_context() -> (r: RequestContextPlan)
    ensures
        r.system_prompt matches Some(p) && p@ == reflection_system_prompt(),
        r.selected_skills@.len() == 0,
        r.allow_tools matches Some(t) && t@.len() == 0,
{
    RequestContextPlan {
        system_prompt: Some(str_to_string(
            "You are Alice's AgentReflector.\nStudy the completed task transcript and decide whether it produced a reusable workflow.\nIf nothing durable was learned, respond with exactly NO_SKILL.\nIf a reusable workflow exists, respond with only valid SKILL.md markdown in English.\nThe markdown must begin with YAML frontmatter containing `name` and `description`.\nThe skill name must be kebab-case.\nDo not mention this instruction block or use any tools.\n",
        )),
        selected_skills: Vec::new(),
        allow_tools: Some(Vec::new()),
    }
}

/// Optional post-turn reflection writer, holding the agent backend that reflects.
#[derive(Debug, Clone)]
pub struct AgentReflector<B> {
    /// Backend that runs the hidden reflection turn.
    pub backend: B,
    /// Directory under which learned skills are written.
    pub learned_skills_dir: String,
}

impl<B> AgentReflector<B> {
    /// Create a reflector when reflection is enabled.
    pub fn new(backend: B, cfg: &ReflectionConfig) -> (r: Option<Self>)
        ensures
            cfg.enabled <==> r is Some,
            r matches Some(x) ==> x.backend == backend && x.learned_skills_dir@
                == cfg.learned_skills_dir@,
    {
        if cfg.enabled {
            Some(AgentReflector { backend, learned_skills_dir: cfg.learned_skills_dir.clone() })
        } else {
            None
        }
    }
}

/// One step of turning text into a kebab-case slug: the slug so far and whether it ends
/// in a separator that was just added.
pub open spec fn slug_step(st: (Seq<char>, bool), c: char) -> (Seq<char>, bool) {
    let lower = ascii_lower(c);
    if is_ascii_alnum(lower) {
        (st.0.push(lower), false)
    } else if !st.1 && st.0.len() > 0 {
        (st.0.push('-'), true)
    } else {
        st
    }
}

/// The slug state after a prefix of the text.
pub open spec fn slug_scan(s: Seq<char>) -> (Seq<char>, bool)
    decreases s.len(),
{
    if s.len() == 0 {
        (Seq::empty(), false)
    } else {
        slug_step(slug_scan(s.drop_last()), s.last())
    }
}

/// The kebab-case slug of a text: ASCII letters and digits lower-cased, each run of
/// other characters after the first letter or digit turned into one `-`, and no `-` at
/// either end.
pub open spec fn spec_sanitize_skill_name(s: Seq<char>) -> Seq<char> {
    trim_by(slug_scan(s).0, CharClass::Dash)
}

/// A slug made only of lower-case ASCII letters, digits and single inner dashes.
pub open spec fn is_kebab_case(s: Seq<char>) -> bool {
    &&& forall|i: int| 0 <= i < s.len() ==> is_kebab_char(#[trigger] s[i])
    &&& s.len() > 0 ==> s[0] != '-' && s.last() != '-'
    &&& forall|i: int| 0 <= i < s.len() - 1 ==> !(#[trigger] s[i] == '-' && s[i + 1] == '-')
}

/// Lower-case ASCII letter, digit, or `-`.
pub open spec fn is_kebab_char(c: char) -> bool {
    c == '-' || (is_ascii_alnum(c) && ascii_lower(c) == c)
}

/// The skill name used when the document names none: the slug of the user input
/// truncated to 48 characters, or `learned-workflow` when the slug is empty.
pub open spec fn spec_fallback_skill_name(user_input: Seq<char>) -> Seq<char> {
    let slug = spec_sanitize_skill_name(user_input);
    if slug.len() == 0 {
        "learned-workflow"@
    } else {
        take_chars(slug, 48)
    }
}

/// The first line that is not blank, trimmed.
pub open spec fn first_nonblank_line(ls: Seq<Seq<char>>) -> Option<Seq<char>>
    decreases ls.len(),
{
    if ls.len() == 0 {
        None
    } else if trim(ls[0]).len() > 0 {
        Some(trim(ls[0]))
    } else {
        first_nonblank_line(ls.drop_first())
    }
}

/// A skill document with YAML front matter: documents that already open with `---`
/// are kept (trimmed, with a final newline); others get a front matter with the
/// fallback name and a description taken from their first non-blank line.
pub open spec fn spec_normalize_skill_document(content: Seq<char>, user_input: Seq<char>) -> Seq<
    char,
> {
    let trimmed = trim(content);
    if has_prefix(trimmed, "---\n"@) || has_prefix(trimmed, "---\r\n"@) {
        trimmed + "\n"@
    } else {
        let name = spec_fallback_skill_name(user_input);
        let description = match first_nonblank_line(lines(trimmed)) {
            Some(line) => take_chars(line, 120),
            None => "Reusable learned workflow for Alice."@,
        };
        "---\nname: "@ + name + "\ndescription: "@ + description + "\n---\n\n"@ + trimmed + "\n"@
    }
}

/// The `name` of a front matter, read from its lines after the opening `---`: the first
/// `key: value` line whose key is `name` gives the slug of its value; a closing `---`,
/// a line without `:`, or an empty slug gives none.
pub open spec fn name_in_front_matter(ls: Seq<Seq<char>>) -> Option<Seq<char>>
    decreases ls.len(),
{
    if ls.len() == 0 {
        None
    } else if trim(ls[0]) == "---"@ {
        None
    } else {
        match split_once_char(ls[0], ':') {
            None => None,
            Some((key, value)) => if trim(key) == "name"@ {
                let slug = spec_sanitize_skill_name(trim(value));
                if slug.len() > 0 {
                    Some(slug)
                } else {
                    None
                }
            } else {
                name_in_front_matter(ls.drop_first())
            },
        }
    }
}

/// The skill name declared in a document's front matter.
pub open spec fn spec_extract_skill_name(document: Seq<char>) -> Option<Seq<char>> {
    let ls = lines(document);
    if ls.len() == 0 || ls[0] != "---"@ {
        None
    } else {
        name_in_front_matter(ls.drop_first())
    }
}

/// The skill a reflection answer teaches, as `(name, document)`: none when the trimmed
/// answer is empty or is `NO_SKILL` in any ASCII case.
pub open spec fn spec_reflection_skill(response: Seq<char>, user_input: Seq<char>) -> Option<
    (Seq<char>, Seq<char>),
> {
    let trimmed = trim(response);
    if trimmed.len() == 0 || eq_ignore_ascii_case(trimmed, "NO_SKILL"@) {
        None
    } else {
        let doc = spec_normalize_skill_document(trimmed, user_input);
        let name = match spec_extract_skill_name(doc) {
            Some(n) => n,
            None => spec_fallback_skill_name(user_input),
        };
        Some((name, doc))
    }
}

/// The shape of a slug in progress.
spec fn slug_state_ok(st: (Seq<char>, bool)) -> bool {
    &&& forall|i: int| 0 <= i < st.0.len() ==> is_kebab_char(#[trigger] st.0[i])
    &&& st.0.len() > 0 ==> st.0[0] != '-'
    &&& forall|i: int| 0 <= i < st.0.len() - 1 ==> !(#[trigger] st.0[i] == '-' && st.0[i + 1] == '-')
    &&& st.1 == (st.0.len() > 0 && st.0.last() == '-')
}

proof fn lemma_ascii_lower_kebab(c: char)
    requires
        is_ascii_alnum(ascii_lower(c)),
    ensures
        is_kebab_char(ascii_lower(c)),
{
    let u = c as u32;
    if 0x41 <= u <= 0x5A {
        let l = ((u + 32) as u32) as char;
        assert(l as u32 == u + 32);
        assert(ascii_lower(c) == l);
        assert(ascii_lower(l) == l);
    }
}

proof fn lemma_slug_scan_ok(s: Seq<char>)
    ensures
        slug_state_ok(slug_scan(s)),
    decreases s.len(),
{
    if s.len() > 0 {
        lemma_slug_scan_ok(s.drop_last());
        let st = slug_scan(s.drop_last());
        let c = s.last();
        let lower = ascii_lower(c);
        if is_ascii_alnum(lower) {
            lemma_ascii_lower_kebab(c);
            let n = st.0.push(lower);
            assert(n[n.len() - 1] == lower);
            assert(forall|i: int| 0 <= i < st.0.len() ==> n[i] == st.0[i]);
        } else if !st.1 && st.0.len() > 0 {
            let n = st.0.push('-');
            assert(forall|i: int| 0 <= i < st.0.len() ==> n[i] == st.0[i]);
        }
    }
}

/// Law: the slug of any text is kebab-case, as skill names must be.
pub proof fn lemma_sanitized_name_is_kebab_case(s: Seq<char>)
    ensures
        is_kebab_case(spec_sanitize_skill_name(s)),
{
    lemma_slug_scan_ok(s);
    let slug = slug_scan(s).0;
    assert(trim_start_by(slug, CharClass::Dash) == slug);
    crate::text::lemma_trim_end_prefix(slug, CharClass::Dash);
    let t = trim_end_by(slug, CharClass::Dash);
    assert(forall|i: int| 0 <= i < t.len() ==> t[i] == slug[i]);
}

/// Law: the fallback skill name is never empty, uses only lower-case ASCII letters,
/// digits and dashes, never starts with a dash and never holds two dashes in a row.
/// (Truncation to 48 characters can leave a dash at its end.)
pub proof fn lemma_fallback_name_shape(user_input: Seq<char>)
    ensures
        ({
            let f = spec_fallback_skill_name(user_input);
            &&& f.len() > 0
            &&& forall|i: int| 0 <= i < f.len() ==> is_kebab_char(#[trigger] f[i])
            &&& f[0] != '-'
            &&& forall|i: int| 0 <= i < f.len() - 1 ==> !(#[trigger] f[i] == '-' && f[i + 1] == '-')
        }),
{
    lemma_sanitized_name_is_kebab_case(user_input);
    let slug = spec_sanitize_skill_name(user_input);
    if slug.len() == 0 {
        reveal_strlit("learned-workflow");
        let f = "learned-workflow"@;
        assert(forall|i: int| 0 <= i < f.len() ==> is_kebab_char(#[trigger] f[i]));
    } else if 48 < slug.len() {
        let t = slug.take(48);
        assert(forall|i: int| 0 <= i < t.len() ==> t[i] == slug[i]);
    }
}

/// Scanning a text of kebab characters without a leading dash or two dashes in a row
/// gives back the text itself.
proof fn lemma_slug_scan_of_kebab(s: Seq<char>)
    requires
        forall|i: int| 0 <= i < s.len() ==> is_kebab_char(#[trigger] s[i]),
        s.len() > 0 ==> s[0] != '-',
        forall|i: int| 0 <= i < s.len() - 1 ==> !(#[trigger] s[i] == '-' && s[i + 1] == '-'),
    ensures
        slug_scan(s) == (s, s.len() > 0 && s.last() == '-'),
    decreases s.len(),
{
    if s.len() > 0 {
        let front = s.drop_last();
        assert forall|i: int| 0 <= i < front.len() implies is_kebab_char(#[trigger] front[i]) by {
            assert(front[i] == s[i]);
        }
        assert forall|i: int| 0 <= i < front.len() - 1 implies !(#[trigger] front[i] == '-' && front[i + 1] == '-') by {
            assert(front[i] == s[i] && front[i + 1] == s[i + 1]);
        }
        lemma_slug_scan_of_kebab(front);
        let c = s.last();
        assert(is_kebab_char(s[s.len() - 1]));
        if c == '-' {
            if front.len() > 0 {
                assert(s[s.len() - 2] == front.last());
            }
            assert(!is_ascii_alnum(ascii_lower(c)));
        } else {
            assert(ascii_lower(c) == c);
        }
        assert(front.push(c) =~= s);
    }
}

/// A kebab-case slug is its own slug.
proof fn lemma_sanitize_kebab_is_identity(s: Seq<char>)
    requires
        is_kebab_case(s),
    ensures
        spec_sanitize_skill_name(s) == s,
{
    lemma_slug_scan_of_kebab(s);
    if s.len() > 0 {
        assert(!in_class(CharClass::Dash, s[0]));
        assert(trim_start_by(s, CharClass::Dash) == s);
        assert(!in_class(CharClass::Dash, s.last()));
        assert(trim_end_by(s, CharClass::Dash) == s);
    } else {
        assert(trim_start_by(s, CharClass::Dash) == s);
        assert(trim_end_by(s, CharClass::Dash) == s);
    }
}

/// A text that starts and ends with a character that is not white space is its own
/// trimmed form, also after a leading space.
proof fn lemma_trim_of_solid(s: Seq<char>)
    requires
        s.len() > 0,
        !is_white_space(s[0]),
        !is_white_space(s.last()),
    ensures
        trim(s) == s,
        trim(seq![' '] + s) == s,
{
    assert(trim_start_by(s, CharClass::WhiteSpace) == s);
    assert(trim_end_by(s, CharClass::WhiteSpace) == s);
    let t = seq![' '] + s;
    assert(is_white_space(' '));
    assert(t.drop_first() =~= s);
    assert(trim_start_by(t, CharClass::WhiteSpace) == trim_start_by(s, CharClass::WhiteSpace));
}

/// Law: a reflection answer without front matter gets a front matter that names the skill
/// by the fallback name, so the skill is learned under that name. This holds whenever the
/// fallback name does not end with a dash (which truncating a long slug can cause).
pub proof fn lemma_normalized_document_names_fallback(content: Seq<char>, user_input: Seq<char>)
    requires
        !has_prefix(trim(content), "---\n"@),
        !has_prefix(trim(content), "---\r\n"@),
        spec_fallback_skill_name(user_input).last() != '-',
    ensures
        spec_extract_skill_name(spec_normalize_skill_document(content, user_input)) == Some(
            spec_fallback_skill_name(user_input),
        ),
{
    lemma_fallback_name_shape(user_input);
    let name = spec_fallback_skill_name(user_input);
    let trimmed = trim(content);
    let description = match first_nonblank_line(lines(trimmed)) {
        Some(line) => take_chars(line, 120),
        None => "Reusable learned workflow for Alice."@,
    };
    let doc = spec_normalize_skill_document(content, user_input);
    reveal_strlit("---\nname: ");
    reveal_strlit("\ndescription: ");
    reveal_strlit("---");
    reveal_strlit("name: ");
    reveal_strlit("name");
    let head = "---"@;
    let line1 = "name: "@ + name;
    let rest = "description: "@ + description + "\n---\n\n"@ + trimmed + "\n"@;
    reveal_strlit("description: ");
    reveal_strlit("\n---\n\n");
    reveal_strlit("\n");
    assert(doc =~= head + seq!['\n'] + (line1 + seq!['\n'] + rest));
    assert forall|i: int| 0 <= i < line1.len() implies line1[i] != '\n' by {
        if i >= 6 {
            assert(line1[i] == name[i - 6]);
            assert(is_kebab_char(name[i - 6]));
        }
    }
    lemma_lines_break(head, line1 + seq!['\n'] + rest);
    lemma_lines_break(line1, rest);
    assert(strip_cr(head) == head);
    assert(line1.last() == name.last());
    assert(is_kebab_char(name[name.len() - 1]));
    assert(strip_cr(line1) == line1);
    let ls = lines(doc);
    assert(ls == seq![head] + (seq![line1] + lines(rest)));
    assert(ls[0] == "---"@);
    let tail = ls.drop_first();
    assert(tail =~= seq![line1] + lines(rest));
    assert(tail[0] == line1);
    // The first front-matter line is `name: <name>`.
    assert(!is_white_space(line1[0]));
    assert(!is_white_space(line1.last()));
    lemma_trim_of_solid(line1);
    assert(trim(line1) != "---"@) by {
        assert(line1[0] != head[0]);
    }
    assert(line1[4] == ':');
    let key = line1.take(4);
    let value = line1.skip(5);
    assert(key =~= "name"@);
    assert(value =~= seq![' '] + name);
    let k = choose|i: int| 0 <= i < line1.len() && line1[i] == ':' && forall|j: int| 0 <= j < i ==> line1[j] != ':';
    assert(0 <= 4 < line1.len() && line1[4] == ':' && forall|j: int| 0 <= j < 4 ==> line1[j] != ':');
    if k < 4 {
        assert(line1[k] != ':');
    } else if k > 4 {
        assert(line1[4] != ':');
    }
    assert(split_once_char(line1, ':') == Some((key, value)));
    assert(!is_white_space(key[0]) && !is_white_space(key.last()));
    lemma_trim_of_solid(key);
    assert(!is_white_space(name[0]));
    assert(!is_white_space(name.last()));
    lemma_trim_of_solid(name);
    assert(trim(value) == name);
    lemma_sanitize_kebab_is_identity(name);
    assert(name_in_front_matter(tail) == Some(name));
}

/// A name read from a front matter is a non-empty kebab-case slug.
proof fn lemma_front_matter_name_kebab(ls: Seq<Seq<char>>)
    ensures
        name_in_front_matter(ls) matches Some(n) ==> n.len() > 0 && is_kebab_case(n),
    decreases ls.len(),
{
    if ls.len() > 0 && trim(ls[0]) != "---"@ {
        match split_once_char(ls[0], ':') {
            None => {},
            Some((key, value)) => {
                if trim(key) == "name"@ {
                    lemma_sanitized_name_is_kebab_case(trim(value));
                } else {
                    lemma_front_matter_name_kebab(ls.drop_first());
                }
            },
        }
    }
}

/// Law: the skill a reflection answer teaches is named by a non-empty slug of lower-case
/// ASCII letters, digits and dashes that never starts with a dash and never holds two
/// dashes in a row.
pub proof fn lemma_reflection_skill_name_shape(response: Seq<char>, user_input: Seq<char>)
    ensures
        spec_reflection_skill(response, user_input) matches Some((name, _)) ==> {
            &&& name.len() > 0
            &&& forall|i: int| 0 <= i < name.len() ==> is_kebab_char(#[trigger] name[i])
            &&& name[0] != '-'
            &&& forall|i: int| 0 <= i < name.len() - 1 ==> !(#[trigger] name[i] == '-' && name[i + 1] == '-')
        },
{
    lemma_fallback_name_shape(user_input);
    let trimmed = trim(response);
    let doc = spec_normalize_skill_document(trimmed, user_input);
    let ls = lines(doc);
    if ls.len() > 0 && ls[0] == "---"@ {
        lemma_front_matter_name_kebab(ls.drop_first());
    }
}

/// Law: a learned skill is named by the name its own document declares, whenever the
/// document declares one; only a document that declares no name gives the fallback name
/// taken from the user input. Every answer that is neither blank nor `NO_SKILL` teaches a
/// skill.
pub proof fn lemma_reflection_skill_named_by_its_document(response: Seq<char>, user_input: Seq<char>)
    ensures
        spec_reflection_skill(response, user_input) matches Some((name, doc)) ==> {
            &&& spec_extract_skill_name(doc) matches Some(declared) ==> name == declared
            &&& spec_extract_skill_name(doc) is None ==> name == spec_fallback_skill_name(user_input)
        },
        trim(response).len() > 0 && !eq_ignore_ascii_case(trim(response), "NO_SKILL"@) ==> (
        spec_reflection_skill(response, user_input) is Some),
{
}

/// The prompt of the hidden reflection turn.
pub open spec fn spec_reflection_prompt(
    session_id: Seq<char>,
    profile_id: Seq<char>,
    user_input: Seq<char>,
    assistant_output: Seq<char>,
) -> Seq<char> {
    "Session: "@ + session_id + "\nProfile: "@ + profile_id + "\n\nUser input:\n"@ + user_input
        + "\n\nAssistant output:\n"@ + assistant_output
        + "\n\nExtract one reusable skill only if it teaches a durable workflow or domain pattern.\nOtherwise return NO_SKILL."@
}

/// The prompt of the hidden reflection turn.
pub fn build_reflection_prompt(
    session_id: &str,
    profile_id: &str,
    user_input: &str,
    assistant_output: &str,
) -> (r: String)
    ensures
        r@ == spec_reflection_prompt(session_id@, profile_id@, user_input@, assistant_output@),
{
    let mut out: Vec<char> = Vec::new();
    push_str(&mut out, "Session: ");
    push_str(&mut out, session_id);
    push_str(&mut out, "\nProfile: ");
    push_str(&mut out, profile_id);
    push_str(&mut out, "\n\nUser input:\n");
    push_str(&mut out, user_input);
    push_str(&mut out, "\n\nAssistant output:\n");
    push_str(&mut out, assistant_output);
    push_str(
        &mut out,
        "\n\nExtract one reusable skill only if it teaches a durable workflow or domain pattern.\nOtherwise return NO_SKILL.",
    );
    assert(out@ =~= spec_reflection_prompt(
        session_id@,
        profile_id@,
        user_input@,
        assistant_output@,
    ));
    string_from_chars(out.as_slice())
}

fn sanitize_chars(input: &Vec<char>) -> (r: Vec<char>)
    ensures
        r@ == spec_sanitize_skill_name(input@),
{
    let mut slug: Vec<char> = Vec::new();
    let mut last_was_dash = false;
    let mut i: usize = 0;
    while i < input.len()
        invariant
            i <= input.len(),
            (slug@, last_was_dash) == slug_scan(input@.take(i as int)),
        decreases input.len() - i,
    {
        assert(input@.take(i + 1).drop_last() =~= input@.take(i as int));
        let lower = char_ascii_lower(input[i]);
        if char_is_ascii_alnum(lower) {
            slug.push(lower);
            last_was_dash = false;
        } else if !last_was_dash && slug.len() > 0 {
            slug.push('-');
            last_was_dash = true;
        }
        i = i + 1;
    }
    assert(input@.take(input.len() as int) =~= input@);
    chars_trim_by(&slug, CharClass::Dash)
}

/// The kebab-case slug of a text.
pub fn sanitize_skill_name(input: &str) -> (r: String)
    ensures
        r@ == spec_sanitize_skill_name(input@),
{
    let c = str_chars(input);
    let s = sanitize_chars(&c);
    string_from_chars(s.as_slice())
}

/// The first `max_chars` characters of a text.
pub fn truncate(input: &str, max_chars: usize) -> (r: String)
    ensures
        r@ == take_chars(input@, max_chars as nat),
{
    let c = str_chars(input);
    let t = chars_take(&c, max_chars);
    string_from_chars(t.as_slice())
}

fn fallback_chars(user_input: &Vec<char>) -> (r: Vec<char>)
    ensures
        r@ == spec_fallback_skill_name(user_input@),
{
    let slug = sanitize_chars(user_input);
    if slug.len() == 0 {
        let mut out: Vec<char> = Vec::new();
        push_str(&mut out, "learned-workflow");
        assert(out@ =~= "learned-workflow"@);
        out
    } else {
        chars_take(&slug, 48)
    }
}

/// The skill name used when the document names none.
pub fn fallback_skill_name(user_input: &str) -> (r: String)
    ensures
        r@ == spec_fallback_skill_name(user_input@),
{
    let c = str_chars(user_input);
    let f = fallback_chars(&c);
    string_from_chars(f.as_slice())
}

fn first_nonblank(ls: &Vec<Vec<char>>) -> (r: Option<Vec<char>>)
    ensures
        match r {
            Some(v) => first_nonblank_line(char_vec_views(ls@)) == Some(v@),
            None => first_nonblank_line(char_vec_views(ls@)) is None,
        },
{
    let mut i: usize = 0;
    assert(char_vec_views(ls@).skip(0) =~= char_vec_views(ls@));
    while i < ls.len()
        invariant
            i <= ls.len(),
            first_nonblank_line(char_vec_views(ls@)) == first_nonblank_line(
                char_vec_views(ls@).skip(i as int),
            ),
        decreases ls.len() - i,
    {
        let t = chars_trim(&ls[i]);
        assert(char_vec_views(ls@).skip(i as int)[0] == ls@[i as int]@);
        if t.len() > 0 {
            return Some(t);
        }
        assert(char_vec_views(ls@).skip(i as int).drop_first() =~= char_vec_views(ls@).skip(
            i + 1,
        ));
        i = i + 1;
    }
    None
}

fn lit(s: &str) -> (r: Vec<char>)
    ensures
        r@ == s@,
{
    str_chars(s)
}

fn normalize_chars(trimmed: &Vec<char>, user_input: &Vec<char>) -> (r: Vec<char>)
    requires
        trimmed@ == trim(trimmed@),
    ensures
        r@ == spec_normalize_skill_document(trimmed@, user_input@),
{
    proof {
        crate::text::lemma_trim_idempotent(trimmed@);
    }
    let open1 = lit("---\n");
    let open2 = lit("---\r\n");
    if chars_has_prefix(trimmed, &open1) || chars_has_prefix(trimmed, &open2) {
        let mut out = trimmed.clone();
        push_str(&mut out, "\n");
        return out;
    }
    let name = fallback_chars(user_input);
    let ls = split_lines(trimmed);
    let description = match first_nonblank(&ls) {
        Some(line) => chars_take(&line, 120),
        None => lit("Reusable learned workflow for Alice."),
    };
    let mut out: Vec<char> = Vec::new();
    push_str(&mut out, "---\nname: ");
    push_all(&mut out, &name);
    push_str(&mut out, "\ndescription: ");
    push_all(&mut out, &description);
    push_str(&mut out, "\n---\n\n");
    push_all(&mut out, trimmed);
    push_str(&mut out, "\n");
    assert(out@ =~= spec_normalize_skill_document(trimmed@, user_input@));
    out
}

/// A skill document with YAML front matter.
pub fn normalize_skill_document(content: &str, user_input: &str) -> (r: String)
    ensures
        r@ == spec_normalize_skill_document(content@, user_input@),
{
    let c = str_chars(content);
    let t = chars_trim(&c);
    proof {
        crate::text::lemma_trim_idempotent(c@);
    }
    let u = str_chars(user_input);
    let out = normalize_chars(&t, &u);
    string_from_chars(out.as_slice())
}

fn name_in_lines(ls: &Vec<Vec<char>>, start: usize) -> (r: Option<Vec<char>>)
    requires
        start <= ls.len(),
    ensures
        match r {
            Some(v) => name_in_front_matter(char_vec_views(ls@).skip(start as int)) == Some(v@),
            None => name_in_front_matter(char_vec_views(ls@).skip(start as int)) is None,
        },
{
    let close = lit("---");
    let key_name = lit("name");
    let mut i = start;
    while i < ls.len()
        invariant
            start <= i <= ls.len(),
            close@ == "---"@,
            key_name@ == "name"@,
            name_in_front_matter(char_vec_views(ls@).skip(start as int)) == name_in_front_matter(
                char_vec_views(ls@).skip(i as int),
            ),
        decreases ls.len() - i,
    {
        let line = &ls[i];
        assert(char_vec_views(ls@).skip(i as int)[0] == line@);
        let t = chars_trim(line);
        if chars_eq(&t, &close) {
            return None;
        }
        match split_once_chars(line, ':') {
            None => return None,
            Some((key, value)) => {
                let k = chars_trim(&key);
                if chars_eq(&k, &key_name) {
                    let v = chars_trim(&value);
                    let slug = sanitize_chars(&v);
                    if slug.len() > 0 {
                        return Some(slug);
                    } else {
                        return None;
                    }
                }
            },
        }
        assert(char_vec_views(ls@).skip(i as int).drop_first() =~= char_vec_views(ls@).skip(
            i + 1,
        ));
        i = i + 1;
    }
    None
}

fn extract_chars(document: &Vec<char>) -> (r: Option<Vec<char>>)
    ensures
        match r {
            Some(v) => spec_extract_skill_name(document@) == Some(v@),
            None => spec_extract_skill_name(document@) is None,
        },
{
    let ls = split_lines(document);
    let open = lit("---");
    if ls.len() == 0 {
        return None;
    }
    assert(char_vec_views(ls@)[0] == ls@[0]@);
    if !chars_eq(&ls[0], &open) {
        return None;
    }
    assert(char_vec_views(ls@).drop_first() =~= char_vec_views(ls@).skip(1));
    name_in_lines(&ls, 1)
}

/// The skill name declared in a document's front matter.
pub fn extract_skill_name(document: &str) -> (r: Option<String>)
    ensures
        match r {
            Some(s) => spec_extract_skill_name(document@) == Some(s@),
            None => spec_extract_skill_name(document@) is None,
        },
{
    let d = str_chars(document);
    match extract_chars(&d) {
        Some(v) => Some(string_from_chars(v.as_slice())),
        None => None,
    }
}


/// The skill a reflection answer teaches, as `(name, document)`.
pub fn reflection_skill(response: &str, user_input: &str) -> (r: Option<(String, String)>)
    ensures
        match r {
            Some((name, doc)) => spec_reflection_skill(response@, user_input@) == Some(
                (name@, doc@),
            ),
            None => spec_reflection_skill(response@, user_input@) is None,
        },
{
    let c = str_chars(response);
    let trimmed = chars_trim(&c);
    let no_skill = lit("NO_SKILL");
    if trimmed.len() == 0 || eq_ignore_case_chars(&trimmed, &no_skill) {
        return None;
    }
    proof {
        crate::text::lemma_trim_idempotent(c@);
    }
    let u = str_chars(user_input);
    let doc = normalize_chars(&trimmed, &u);
    let name = match extract_chars(&doc) {
        Some(n) => n,
        None => fallback_chars(&u),
    };
    Some((string_from_chars(name.as_slice()), string_from_chars(doc.as_slice())))
}

} // verus!
