//! Local memory subsystem: importance levels, full-text query sanitizing, turn records
//! and recall rendering.
//!
//! Retrieval scores and embeddings are floating point and are computed outside the
//! library; the records here hold the text a turn leaves behind.
use vstd::prelude::*;

use crate::text::{
    is_white_space, lemma_join_chars, lemma_words_chars, words_scan, words_step,
    char_vec_views, chars_take, chars_trim, chars_trim_by, chars_utf8_len,
    decimal, join, join_chars, push_all, push_decimal, push_signed_decimal,
    push_str, push_zero_padded, signed_decimal, split_words, str_chars, str_eq, string_from_chars,
    string_views, take_chars, trim, trim_by, utf8_byte_len, words, zero_padded, CharClass,
};

verus! {

/// Importance level for memory entries.
#[derive(Debug, Clone, Copy, PartialEq, Eq, Structural)]
pub enum MemoryImportance {
    /// Low signal.
    Low,
    /// Default level.
    Medium,
    /// High signal.
    High,
}

/// Validation failures for memory inputs.
#[derive(Debug, Clone, PartialEq, Eq)]
pub enum MemoryValidationError {
    /// Recall limit must be positive.
    InvalidRecallLimit,
    /// A stored importance level is not one of the known names.
    InvalidImportance(String),
}

/// The persistence name of an importance level.
pub open spec fn importance_name(i: MemoryImportance) -> Seq<char> {
    match i {
        MemoryImportance::Low => "low"@,
        MemoryImportance::Medium => "medium"@,
        MemoryImportance::High => "high"@,
    }
}

/// The importance level stored under a name, if the name is known.
pub open spec fn importance_from_name(s: Seq<char>) -> Option<MemoryImportance> {
    if s == "low"@ {
        Some(MemoryImportance::Low)
    } else if s == "medium"@ {
        Some(MemoryImportance::Medium)
    } else if s == "high"@ {
        Some(MemoryImportance::High)
    } else {
        None
    }
}

impl MemoryImportance {
    /// Serialize to persistence-friendly string.
    pub fn as_str(&self) -> (r: &'static str)
        ensures
            r@ == importance_name(*self),
    {
        match self {
            MemoryImportance::Low => "low",
            MemoryImportance::Medium => "medium",
            MemoryImportance::High => "high",
        }
    }

    /// Deserialize from storage string; unknown names are an error that carries the name.
    pub fn from_db(value: &str) -> (r: Result<Self, MemoryValidationError>)
        ensures
            match importance_from_name(value@) {
                Some(i) => r == Ok::<MemoryImportance, MemoryValidationError>(i),
                None => r matches Err(MemoryValidationError::InvalidImportance(v)) && v@ == value@,
            },
    {
        if str_eq(value, "low") {
            Ok(MemoryImportance::Low)
        } else if str_eq(value, "medium") {
            Ok(MemoryImportance::Medium)
        } else if str_eq(value, "high") {
            Ok(MemoryImportance::High)
        } else {
            Err(MemoryValidationError::InvalidImportance(String::from_str(value)))
        }
    }
}

/// Law: reading back the persistence name of an importance level gives that level.
pub proof fn lemma_importance_roundtrip(i: MemoryImportance)
    ensures
        importance_from_name(importance_name(i)) == Some(i),
{
    reveal_strlit("low");
    reveal_strlit("medium");
    reveal_strlit("high");
    assert("low"@.len() != "medium"@.len());
    assert("low"@.len() != "high"@.len());
    assert("medium"@.len() != "high"@.len());
}

/// Characters that have a meaning in an FTS5 query.
pub open spec fn is_fts_operator(c: char) -> bool {
    c == '-' || c == '*' || c == '"' || c == '(' || c == ')' || c == '{' || c == '}' || c == ':'
        || c == '^' || c == '+' || c == '~' || c == '\\'
}

/// A text with every FTS5 operator character replaced by a space.
pub open spec fn fts_blanked(s: Seq<char>) -> Seq<char> {
    Seq::new(
        s.len(),
        |i: int|
            if is_fts_operator(s[i]) {
                ' '
            } else {
                s[i]
            },
    )
}

/// A word wrapped in double quotes.
pub open spec fn quoted(w: Seq<char>) -> Seq<char> {
    seq!['"'] + w + seq!['"']
}

/// The FTS5 query for a text: its words, after operators are blanked out, each quoted,
/// separated by single spaces.
pub open spec fn spec_sanitize_fts_query(input: Seq<char>) -> Seq<char> {
    let ws = words(fts_blanked(input));
    join(Seq::new(ws.len(), |i: int| quoted(ws[i])), seq![' '])
}

/// Sanitize text for `fts5 MATCH` query use.
pub fn sanitize_fts_query(input: &str) -> (r: String)
    ensures
        r@ == spec_sanitize_fts_query(input@),
{
    let chars = str_chars(input);
    let mut cleaned: Vec<char> = Vec::new();
    let mut i: usize = 0;
    while i < chars.len()
        invariant
            i <= chars.len(),
            cleaned@ == fts_blanked(chars@).take(i as int),
        decreases chars.len() - i,
    {
        let c = chars[i];
        let op = c == '-' || c == '*' || c == '"' || c == '(' || c == ')' || c == '{' || c == '}'
            || c == ':' || c == '^' || c == '+' || c == '~' || c == '\\';
        if op {
            cleaned.push(' ');
        } else {
            cleaned.push(c);
        }
        i = i + 1;
        assert(cleaned@ =~= fts_blanked(chars@).take(i as int));
    }
    assert(cleaned@ =~= fts_blanked(chars@));
    let ws = split_words(&cleaned);
    let mut quoted_words: Vec<Vec<char>> = Vec::new();
    let mut k: usize = 0;
    while k < ws.len()
        invariant
            k <= ws.len(),
            char_vec_views(ws@) == words(fts_blanked(chars@)),
            char_vec_views(quoted_words@) == Seq::new(
                k as nat,
                |j: int| quoted(char_vec_views(ws@)[j]),
            ),
        decreases ws.len() - k,
    {
        let mut q: Vec<char> = Vec::new();
        q.push('"');
        push_all(&mut q, &ws[k]);
        q.push('"');
        assert(q@ =~= quoted(char_vec_views(ws@)[k as int]));
        let ghost before = char_vec_views(quoted_words@);
        let ghost qv = q@;
        quoted_words.push(q);
        assert(char_vec_views(quoted_words@) =~= before.push(qv));
        k = k + 1;
        assert(char_vec_views(quoted_words@) =~= Seq::new(
            k as nat,
            |j: int| quoted(char_vec_views(ws@)[j]),
        ));
    }
    let mut sep: Vec<char> = Vec::new();
    sep.push(' ');
    let out = join_chars(&quoted_words, &sep);
    assert(sep@ =~= seq![' ']);
    let ghost w = words(fts_blanked(input@));
    assert(char_vec_views(quoted_words@) =~= Seq::new(w.len(), |j: int| quoted(w[j])));
    string_from_chars(out.as_slice())
}

/// A character that may stand in a sanitized query: a quote the sanitizer adds, or a
/// character that is no FTS5 operator.
pub open spec fn allowed_in_query(c: char) -> bool {
    c == '"' || !is_fts_operator(c)
}

/// Law: a sanitized query holds no FTS5 operator other than the double quotes that wrap
/// each word, and no word is empty.
pub proof fn lemma_sanitized_query_has_no_operators(input: Seq<char>)
    ensures
        forall|i: int|
            0 <= i < spec_sanitize_fts_query(input).len() ==> allowed_in_query(
                #[trigger] spec_sanitize_fts_query(input)[i],
            ),
{
    let b = fts_blanked(input);
    let not_op = |c: char| !is_fts_operator(c);
    assert forall|i: int| 0 <= i < b.len() implies not_op(#[trigger] b[i]) by {}
    lemma_words_chars(b, not_op);
    let ws = words(b);
    let parts = Seq::new(ws.len(), |i: int| quoted(ws[i]));
    let allowed = |c: char| allowed_in_query(c);
    assert forall|w: int, j: int| 0 <= w < parts.len() && 0 <= j < parts[w].len() implies allowed(
        #[trigger] parts[w][j],
    ) by {
        assert(parts[w] == seq!['"'] + ws[w] + seq!['"']);
        if 0 < j < parts[w].len() - 1 {
            assert(parts[w][j] == ws[w][j - 1]);
            assert(not_op(ws[w][j - 1]));
        }
    }
    assert forall|j: int| 0 <= j < seq![' '].len() implies allowed(#[trigger] seq![' '][j]) by {}
    lemma_join_chars(parts, seq![' '], allowed);
}

/// Scanning never keeps an empty word.
proof fn lemma_words_scan_nonempty(s: Seq<char>)
    ensures
        forall|w: int| 0 <= w < words_scan(s).0.len() ==> #[trigger] words_scan(s).0[w].len() > 0,
    decreases s.len(),
{
    if s.len() > 0 {
        lemma_words_scan_nonempty(s.drop_last());
        let st = words_scan(s.drop_last());
        if is_white_space(s.last()) && st.1.len() > 0 {
            let n = st.0.push(st.1);
            assert forall|w: int| 0 <= w < n.len() implies #[trigger] n[w].len() > 0 by {
                if w < st.0.len() {
                    assert(n[w] == st.0[w]);
                }
            }
        }
    }
}

/// Once a scan stands between words, what follows is scanned on its own.
proof fn lemma_words_scan_append(s: Seq<char>, t: Seq<char>)
    requires
        words_scan(s).1.len() == 0,
    ensures
        words_scan(s + t) == (words_scan(s).0 + words_scan(t).0, words_scan(t).1),
    decreases t.len(),
{
    if t.len() == 0 {
        assert(s + t =~= s);
        assert(words_scan(s).0 + words_scan(t).0 =~= words_scan(s).0);
    } else {
        let f = t.drop_last();
        lemma_words_scan_append(s, f);
        assert((s + t).drop_last() =~= s + f);
        assert((s + t).last() == t.last());
        let a = words_scan(s).0;
        let st = words_scan(f);
        if is_white_space(t.last()) && st.1.len() > 0 {
            assert(a + st.0.push(st.1) =~= (a + st.0).push(st.1));
        }
    }
}

/// A run of characters that holds no white space extends the word being scanned.
proof fn lemma_words_scan_run(s: Seq<char>, w: Seq<char>)
    requires
        forall|j: int| 0 <= j < w.len() ==> !is_white_space(#[trigger] w[j]),
    ensures
        words_scan(s + w) == (words_scan(s).0, words_scan(s).1 + w),
    decreases w.len(),
{
    if w.len() == 0 {
        assert(s + w =~= s);
        assert(words_scan(s).1 + w =~= words_scan(s).1);
    } else {
        let f = w.drop_last();
        lemma_words_scan_run(s, f);
        assert((s + w).drop_last() =~= s + f);
        assert((s + w).last() == w.last());
        assert(!is_white_space(w[w.len() - 1]));
        assert(words_scan(s).1 + f + seq![w.last()] =~= words_scan(s).1 + w);
    }
}

/// A lone space scans as nothing.
proof fn lemma_words_scan_space()
    ensures
        words_scan(seq![' ']) == (Seq::<Seq<char>>::empty(), Seq::<char>::empty()),
{
    let sp = seq![' '];
    assert(is_white_space(' '));
    assert(sp.drop_last() =~= Seq::<char>::empty());
    assert(sp.last() == ' ');
    let e = words_scan(Seq::<char>::empty());
    assert(e.1.len() == 0);
    assert(words_scan(sp) == words_step(e, ' '));
    assert(words_step(e, ' ') == e);
}

/// A word between spaces scans as that one word.
proof fn lemma_words_scan_spaced(w: Seq<char>)
    requires
        w.len() > 0,
        forall|j: int| 0 <= j < w.len() ==> !is_white_space(#[trigger] w[j]),
    ensures
        words_scan(seq![' '] + w + seq![' ']) == (seq![w], Seq::<char>::empty()),
{
    let sp = seq![' '];
    assert(is_white_space(' '));
    lemma_words_scan_space();
    lemma_words_scan_run(sp, w);
    assert(Seq::<char>::empty() + w =~= w);
    let x = sp + w + sp;
    assert(x.drop_last() =~= sp + w);
    assert(x.last() == ' ');
    assert(Seq::<Seq<char>>::empty().push(w) =~= seq![w]);
}

/// The words separated by spaces, each between spaces of its own, scan back as the words.
proof fn lemma_words_scan_spaced_join(ws: Seq<Seq<char>>)
    requires
        forall|w: int| 0 <= w < ws.len() ==> #[trigger] ws[w].len() > 0,
        forall|w: int, j: int| 0 <= w < ws.len() && 0 <= j < ws[w].len() ==> !is_white_space(#[trigger] ws[w][j]),
    ensures
        words_scan(join(Seq::new(ws.len(), |i: int| seq![' '] + ws[i] + seq![' ']), seq![' '])) == (
        ws,
        Seq::<char>::empty(),
        ),
    decreases ws.len(),
{
    let parts = Seq::new(ws.len(), |i: int| seq![' '] + ws[i] + seq![' ']);
    if ws.len() == 0 {
        assert(ws =~= Seq::<Seq<char>>::empty());
    } else if ws.len() == 1 {
        lemma_words_scan_spaced(ws[0]);
        assert(seq![ws[0]] =~= ws);
    } else {
        let front = ws.drop_last();
        let w = ws.last();
        assert forall|k: int, j: int| 0 <= k < front.len() && 0 <= j < front[k].len() implies !is_white_space(#[trigger] front[k][j]) by {
            assert(front[k] == ws[k]);
        }
        assert forall|k: int| 0 <= k < front.len() implies #[trigger] front[k].len() > 0 by {
            assert(front[k] == ws[k]);
        }
        lemma_words_scan_spaced_join(front);
        let fparts = Seq::new(front.len(), |i: int| seq![' '] + front[i] + seq![' ']);
        assert(parts.drop_last() =~= fparts);
        let a = join(fparts, seq![' ']);
        assert(join(parts, seq![' ']) == a + seq![' '] + parts.last());
        assert forall|j: int| 0 <= j < w.len() implies !is_white_space(#[trigger] w[j]) by {
            assert(w == ws[ws.len() - 1]);
        }
        lemma_words_scan_spaced(w);
        let sp = seq![' '];
        assert(is_white_space(' '));
        lemma_words_scan_space();
        lemma_words_scan_append(sp, parts.last());
        lemma_words_scan_append(a, sp + parts.last());
        assert(a + sp + parts.last() =~= a + (sp + parts.last()));
        assert(Seq::<Seq<char>>::empty() + seq![w] =~= seq![w]);
        assert(front + seq![w] =~= ws);
    }
}

/// Blanking operators works character by character.
proof fn lemma_blanked_concat(a: Seq<char>, b: Seq<char>)
    ensures
        fts_blanked(a + b) == fts_blanked(a) + fts_blanked(b),
{
    assert(fts_blanked(a + b) =~= fts_blanked(a) + fts_blanked(b));
}

/// Blanking a join blanks each part and the separator.
proof fn lemma_blanked_join(parts: Seq<Seq<char>>, sep: Seq<char>)
    ensures
        fts_blanked(join(parts, sep)) == join(
            Seq::new(parts.len(), |i: int| fts_blanked(parts[i])),
            fts_blanked(sep),
        ),
    decreases parts.len(),
{
    let bp = Seq::new(parts.len(), |i: int| fts_blanked(parts[i]));
    if parts.len() == 0 {
        assert(fts_blanked(Seq::<char>::empty()) =~= Seq::<char>::empty());
    } else if parts.len() > 1 {
        let front = parts.drop_last();
        lemma_blanked_join(front, sep);
        assert(bp.drop_last() =~= Seq::new(front.len(), |i: int| fts_blanked(front[i])));
        lemma_blanked_concat(join(front, sep), sep);
        lemma_blanked_concat(join(front, sep) + sep, parts.last());
    }
}

/// Law: sanitizing a query that was already sanitized changes nothing.
pub proof fn lemma_sanitize_idempotent(input: Seq<char>)
    ensures
        spec_sanitize_fts_query(spec_sanitize_fts_query(input)) == spec_sanitize_fts_query(input),
{
    let b = fts_blanked(input);
    let ws = words(b);
    let not_op = |c: char| !is_fts_operator(c);
    assert forall|i: int| 0 <= i < b.len() implies not_op(#[trigger] b[i]) by {}
    lemma_words_chars(b, not_op);
    lemma_words_scan_nonempty(b);
    assert forall|w: int| 0 <= w < ws.len() implies #[trigger] ws[w].len() > 0 by {
        let st = words_scan(b);
        if w < st.0.len() {
            assert(ws[w] == st.0[w]);
        }
    }
    let q = Seq::new(ws.len(), |i: int| quoted(ws[i]));
    let s1 = join(q, seq![' ']);
    assert(s1 == spec_sanitize_fts_query(input));
    lemma_blanked_join(q, seq![' ']);
    let spaced = Seq::new(ws.len(), |i: int| seq![' '] + ws[i] + seq![' ']);
    assert(fts_blanked(seq![' ']) =~= seq![' ']);
    assert forall|i: int| 0 <= i < ws.len() implies fts_blanked(#[trigger] q[i]) == spaced[i] by {
        assert forall|j: int| 0 <= j < ws[i].len() implies !is_fts_operator(#[trigger] ws[i][j]) by {
            assert(not_op(ws[i][j]));
        }
        assert(fts_blanked(q[i]) =~= spaced[i]);
    }
    assert(Seq::new(q.len(), |i: int| fts_blanked(q[i])) =~= spaced);
    assert(fts_blanked(s1) == join(spaced, seq![' ']));
    lemma_words_scan_spaced_join(ws);
    assert(words(fts_blanked(s1)) == ws);
}

/// A memory entry's text: what a turn leaves behind for later recall.
#[derive(Debug, Clone, PartialEq, Eq)]
pub struct MemoryRecord {
    /// Stable entry identifier.
    pub id: String,
    /// Conversation session identifier.
    pub session_id: String,
    /// Topic key.
    pub topic: String,
    /// Compact summary used for retrieval.
    pub summary: String,
    /// Full excerpt or concatenated turn content.
    pub raw_excerpt: String,
    /// Searchable keywords.
    pub keywords: Vec<String>,
    /// Importance signal.
    pub importance: MemoryImportance,
    /// Unix epoch milliseconds.
    pub created_at_epoch_ms: i64,
}

/// The lower-case form of a text (`str::to_lowercase`, full Unicode case mapping).
pub uninterp spec fn lowercase(s: Seq<char>) -> Seq<char>;

/// The lower-case form of a text, by `str::to_lowercase`.
#[verifier::external_body]
fn to_lowercase(s: &str) -> (r: String)
    ensures
        r@ == lowercase(s@),
{
    s.to_lowercase()
}

/// Most keywords kept for one turn.
pub const MAX_KEYWORDS: usize = 12;

/// Keywords kept from normalized tokens, in order: tokens of at least four UTF-8 bytes,
/// each once, at most twelve.
pub open spec fn keyword_scan(tokens: Seq<Seq<char>>) -> Seq<Seq<char>>
    decreases tokens.len(),
{
    if tokens.len() == 0 {
        Seq::empty()
    } else {
        let kept = keyword_scan(tokens.drop_last());
        let t = tokens.last();
        if kept.len() >= 12 || utf8_byte_len(t) < 4 || kept.contains(t) {
            kept
        } else {
            kept.push(t)
        }
    }
}

/// The keywords of a turn from its normalized tokens; `conversation` when none is kept.
pub open spec fn spec_select_keywords(tokens: Seq<Seq<char>>) -> Seq<Seq<char>> {
    let kept = keyword_scan(tokens);
    if kept.len() == 0 {
        seq!["conversation"@]
    } else {
        kept
    }
}

/// A raw token normalized for keyword use: ASCII punctuation trimmed from both ends,
/// then lower-cased.
pub open spec fn normalized_token(t: Seq<char>) -> Seq<char> {
    lowercase(trim_by(t, CharClass::NotAsciiAlnum))
}

/// The normalized tokens of a turn: the words of the user input, then those of the answer.
pub open spec fn turn_tokens(user_input: Seq<char>, assistant_output: Seq<char>) -> Seq<Seq<char>> {
    let ws = words(user_input) + words(assistant_output);
    Seq::new(ws.len(), |i: int| normalized_token(ws[i]))
}

/// Law: the keywords of a turn are never empty, never more than twelve, hold no
/// duplicates, and each kept token is at least four bytes long.
pub proof fn lemma_keyword_selection_shape(tokens: Seq<Seq<char>>)
    ensures
        spec_select_keywords(tokens).len() >= 1,
        spec_select_keywords(tokens).len() <= 12,
        keyword_scan(tokens).len() <= 12,
        forall|i: int, j: int|
            0 <= i < j < keyword_scan(tokens).len() ==> keyword_scan(tokens)[i] != keyword_scan(
                tokens,
            )[j],
        forall|i: int|
            0 <= i < keyword_scan(tokens).len() ==> utf8_byte_len(#[trigger] keyword_scan(tokens)[i])
                >= 4,
    decreases tokens.len(),
{
    if tokens.len() > 0 {
        lemma_keyword_selection_shape(tokens.drop_last());
        let kept = keyword_scan(tokens.drop_last());
        let t = tokens.last();
        if !(kept.len() >= 12 || utf8_byte_len(t) < 4 || kept.contains(t)) {
            let n = kept.push(t);
            assert forall|i: int, j: int| 0 <= i < j < n.len() implies n[i] != n[j] by {
                if j == n.len() - 1 {
                    assert(n[i] == kept[i]);
                }
            }
        }
    }
}

/// Where each kept keyword first occurs among the tokens, in keyword order.
pub open spec fn keyword_positions(tokens: Seq<Seq<char>>) -> Seq<int>
    decreases tokens.len(),
{
    if tokens.len() == 0 {
        Seq::empty()
    } else {
        let kept = keyword_scan(tokens.drop_last());
        let t = tokens.last();
        if kept.len() >= 12 || utf8_byte_len(t) < 4 || kept.contains(t) {
            keyword_positions(tokens.drop_last())
        } else {
            keyword_positions(tokens.drop_last()).push(tokens.len() - 1)
        }
    }
}

/// The keywords kept from a prefix of the tokens begin the keywords kept from the whole.
proof fn lemma_keyword_scan_prefix(tokens: Seq<Seq<char>>, n: int)
    requires
        0 <= n <= tokens.len(),
    ensures
        keyword_scan(tokens.take(n)).len() <= keyword_scan(tokens).len(),
        keyword_scan(tokens.take(n)) == keyword_scan(tokens).take(keyword_scan(tokens.take(n)).len() as int),
    decreases tokens.len() - n,
{
    if n < tokens.len() {
        let front = tokens.drop_last();
        assert(front.take(n) =~= tokens.take(n));
        lemma_keyword_scan_prefix(front, n);
    } else {
        assert(tokens.take(n) =~= tokens);
    }
}

/// Law: each keyword of a turn is one of its normalized tokens, taken at the token's
/// first occurrence, and the keywords come in the order in which they first occur.
pub proof fn lemma_keywords_first_occurrence_order(tokens: Seq<Seq<char>>)
    ensures
        keyword_positions(tokens).len() == keyword_scan(tokens).len(),
        forall|i: int|
            0 <= i < keyword_scan(tokens).len() ==> 0 <= #[trigger] keyword_positions(tokens)[i]
                < tokens.len() && tokens[keyword_positions(tokens)[i]] == keyword_scan(tokens)[i],
        forall|i: int, q: int|
            0 <= i < keyword_scan(tokens).len() && 0 <= q < keyword_positions(tokens)[i] ==> #[trigger] tokens[q]
                != #[trigger] keyword_scan(tokens)[i],
        forall|i: int, j: int|
            0 <= i < j < keyword_scan(tokens).len() ==> #[trigger] keyword_positions(tokens)[i]
                < #[trigger] keyword_positions(tokens)[j],
    decreases tokens.len(),
{
    if tokens.len() > 0 {
        let front = tokens.drop_last();
        lemma_keywords_first_occurrence_order(front);
        let kept = keyword_scan(front);
        let pos = keyword_positions(front);
        let t = tokens.last();
        let n = tokens.len() - 1;
        if !(kept.len() >= 12 || utf8_byte_len(t) < 4 || kept.contains(t)) {
            let k2 = kept.push(t);
            let p2 = pos.push(n);
            assert(keyword_scan(tokens) == k2);
            assert(keyword_positions(tokens) == p2);
            assert forall|q: int| 0 <= q < n implies tokens[q] != t by {
                if tokens[q] == t {
                    lemma_keyword_scan_prefix(front, q);
                    lemma_keyword_scan_prefix(front, q + 1);
                    let kq = keyword_scan(front.take(q));
                    let f1 = front.take(q + 1);
                    assert(f1.drop_last() =~= front.take(q));
                    assert(f1.last() == t);
                    if kq.len() >= 12 {
                        assert(kept.len() >= kq.len());
                    } else if kq.contains(t) {
                        let w = choose|w: int| 0 <= w < kq.len() && kq[w] == t;
                        assert(kept.take(kq.len() as int)[w] == kept[w]);
                        assert(kept[w] == t);
                        assert(kept.contains(t));
                    } else {
                        let k1 = keyword_scan(f1);
                        assert(k1 == kq.push(t));
                        assert(k1[kq.len() as int] == t);
                        assert(kept.take(k1.len() as int)[kq.len() as int] == kept[kq.len() as int]);
                        assert(kept[kq.len() as int] == t);
                        assert(kept.contains(t));
                    }
                }
            }
            assert forall|i: int| 0 <= i < k2.len() implies 0 <= #[trigger] p2[i] < tokens.len()
                && tokens[p2[i]] == k2[i] by {
                if i < kept.len() {
                    assert(p2[i] == pos[i]);
                    assert(tokens[pos[i]] == front[pos[i]]);
                }
            }
            assert forall|i: int, q: int| 0 <= i < k2.len() && 0 <= q < p2[i] implies #[trigger] tokens[q]
                != #[trigger] k2[i] by {
                if i < kept.len() {
                    assert(p2[i] == pos[i]);
                    assert(tokens[q] == front[q]);
                }
            }
        } else {
            assert forall|i: int| 0 <= i < kept.len() implies 0 <= #[trigger] pos[i] < tokens.len()
                && tokens[pos[i]] == kept[i] by {
                assert(tokens[pos[i]] == front[pos[i]]);
            }
            assert forall|i: int, q: int| 0 <= i < kept.len() && 0 <= q < pos[i] implies #[trigger] tokens[q]
                != #[trigger] kept[i] by {
                assert(tokens[q] == front[q]);
            }
        }
    }
}

/// Whether `v` holds a copy of `t`.
fn contains_chars(v: &Vec<Vec<char>>, t: &Vec<char>) -> (r: bool)
    ensures
        r == char_vec_views(v@).contains(t@),
{
    let mut i: usize = 0;
    while i < v.len()
        invariant
            i <= v.len(),
            forall|j: int| 0 <= j < i ==> v@[j]@ != t@,
        decreases v.len() - i,
    {
        if crate::text::chars_eq(&v[i], t) {
            assert(char_vec_views(v@)[i as int] == t@);
            return true;
        }
        i = i + 1;
    }
    proof {
        if char_vec_views(v@).contains(t@) {
            let j = choose|j: int| 0 <= j < v@.len() && char_vec_views(v@)[j] == t@;
            assert(v@[j]@ == t@);
        }
    }
    false
}

/// The keywords of a turn from its normalized tokens.
pub fn select_keywords(tokens: &Vec<String>) -> (r: Vec<String>)
    ensures
        string_views(r@) == spec_select_keywords(string_views(tokens@)),
{
    let ghost tv = string_views(tokens@);
    let mut kept: Vec<Vec<char>> = Vec::new();
    let mut i: usize = 0;
    while i < tokens.len()
        invariant
            tv == string_views(tokens@),
            i <= tokens.len(),
            char_vec_views(kept@) == keyword_scan(tv.take(i as int)),
        decreases tokens.len() - i,
    {
        assert(tv.take(i + 1).drop_last() =~= tv.take(i as int));
        let t = str_chars(tokens[i].as_str());
        assert(tv.take(i + 1).last() == t@);
        if kept.len() < MAX_KEYWORDS && chars_utf8_len(&t) >= 4 && !contains_chars(&kept, &t) {
            let ghost before = char_vec_views(kept@);
            kept.push(t);
            assert(char_vec_views(kept@) =~= before.push(t@));
        }
        i = i + 1;
    }
    assert(tv.take(tokens.len() as int) =~= tv);
    let mut out: Vec<String> = Vec::new();
    if kept.len() == 0 {
        out.push(String::from_str("conversation"));
        assert(string_views(out@) =~= seq!["conversation"@]);
        return out;
    }
    let mut k: usize = 0;
    while k < kept.len()
        invariant
            k <= kept.len(),
            string_views(out@) == char_vec_views(kept@).take(k as int),
        decreases kept.len() - k,
    {
        let s = string_from_chars(kept[k].as_slice());
        let ghost before = string_views(out@);
        let ghost sv = s@;
        out.push(s);
        assert(string_views(out@) =~= before.push(sv));
        assert(char_vec_views(kept@).take(k + 1) =~= char_vec_views(kept@).take(k as int).push(kept@[k as int]@));
        k = k + 1;
        assert(string_views(out@) =~= char_vec_views(kept@).take(k as int));
    }
    assert(char_vec_views(kept@).take(kept.len() as int) =~= char_vec_views(kept@));
    out
}

/// The searchable keywords of a turn.
pub fn extract_keywords(user_input: &str, assistant_output: &str) -> (r: Vec<String>)
    ensures
        string_views(r@) == spec_select_keywords(turn_tokens(user_input@, assistant_output@)),
{
    let a = str_chars(user_input);
    let b = str_chars(assistant_output);
    let wa = split_words(&a);
    let wb = split_words(&b);
    let ghost ws = words(user_input@) + words(assistant_output@);
    let mut tokens: Vec<String> = Vec::new();
    let mut i: usize = 0;
    while i < wa.len()
        invariant
            i <= wa.len(),
            char_vec_views(wa@) == words(user_input@),
            string_views(tokens@) == Seq::new(i as nat, |j: int| normalized_token(ws[j])),
            ws == words(user_input@) + words(assistant_output@),
        decreases wa.len() - i,
    {
        let t = chars_trim_by(&wa[i], CharClass::NotAsciiAlnum);
        let s = string_from_chars(t.as_slice());
        let lower = to_lowercase(s.as_str());
        assert(ws[i as int] == wa@[i as int]@);
        assert(char_vec_views(wa@)[i as int] == wa@[i as int]@);
        let ghost before = string_views(tokens@);
        let ghost lv = lower@;
        tokens.push(lower);
        assert(string_views(tokens@) =~= before.push(lv));
        i = i + 1;
        assert(string_views(tokens@) =~= Seq::new(i as nat, |j: int| normalized_token(ws[j])));
    }
    let mut k: usize = 0;
    while k < wb.len()
        invariant
            k <= wb.len(),
            char_vec_views(wb@) == words(assistant_output@),
            char_vec_views(wa@) == words(user_input@),
            string_views(tokens@) == Seq::new(
                (wa.len() + k) as nat,
                |j: int| normalized_token(ws[j]),
            ),
            ws == words(user_input@) + words(assistant_output@),
        decreases wb.len() - k,
    {
        let t = chars_trim_by(&wb[k], CharClass::NotAsciiAlnum);
        let s = string_from_chars(t.as_slice());
        let lower = to_lowercase(s.as_str());
        assert(ws[wa.len() + k] == wb@[k as int]@);
        assert(char_vec_views(wb@)[k as int] == wb@[k as int]@);
        let ghost before = string_views(tokens@);
        let ghost lv = lower@;
        tokens.push(lower);
        assert(string_views(tokens@) =~= before.push(lv));
        k = k + 1;
        assert(string_views(tokens@) =~= Seq::new(
            (wa.len() + k) as nat,
            |j: int| normalized_token(ws[j]),
        ));
    }
    assert(string_views(tokens@) =~= turn_tokens(user_input@, assistant_output@));
    select_keywords(&tokens)
}

/// The first `max_chars` characters of a text.
pub fn truncate(input: &str, max_chars: usize) -> (r: String)
    ensures
        r@ == take_chars(input@, max_chars as nat),
{
    let c = str_chars(input);
    let t = chars_take(&c, max_chars);
    string_from_chars(t.as_slice())
}

/// Most characters of a turn summary.
pub const SUMMARY_MAX_CHARS: usize = 300;

/// The id of a memory entry written at `now_ms` with counter value `counter`
/// (`mem-{now_ms}-{counter:04}`).
pub open spec fn memory_id_text(now_ms: i64, counter: u64) -> Seq<char> {
    "mem-"@ + signed_decimal(now_ms as int) + "-"@ + zero_padded(decimal(counter as nat), 4)
}

/// The raw excerpt of a turn: `user: {input}\nassistant: {output}`, both trimmed.
pub open spec fn turn_excerpt(user_input: Seq<char>, assistant_output: Seq<char>) -> Seq<char> {
    "user: "@ + trim(user_input) + "\nassistant: "@ + trim(assistant_output)
}

/// The text a turn's embedding is computed from: trimmed input and output, space-separated.
pub open spec fn turn_embedding_text(user_input: Seq<char>, assistant_output: Seq<char>) -> Seq<
    char,
> {
    trim(user_input) + " "@ + trim(assistant_output)
}

/// The text of a turn's embedding.
pub fn embedding_text(user_input: &str, assistant_output: &str) -> (r: String)
    ensures
        r@ == turn_embedding_text(user_input@, assistant_output@),
{
    let a = str_chars(user_input);
    let b = str_chars(assistant_output);
    let mut out = chars_trim(&a);
    push_str(&mut out, " ");
    let tb = chars_trim(&b);
    push_all(&mut out, &tb);
    string_from_chars(out.as_slice())
}

/// The record a turn leaves behind, written at `now_ms` with id counter `counter`:
/// topic and session are the session id, the summary is the trimmed answer cut to 300
/// characters, and the importance is medium.
pub fn build_turn_record(
    session_id: &str,
    user_input: &str,
    assistant_output: &str,
    now_ms: i64,
    counter: u64,
) -> (r: MemoryRecord)
    ensures
        r.id@ == memory_id_text(now_ms, counter),
        r.session_id@ == session_id@,
        r.topic@ == session_id@,
        r.summary@ == take_chars(trim(assistant_output@), 300),
        r.raw_excerpt@ == turn_excerpt(user_input@, assistant_output@),
        string_views(r.keywords@) == spec_select_keywords(
            turn_tokens(user_input@, assistant_output@),
        ),
        r.importance == MemoryImportance::Medium,
        r.created_at_epoch_ms == now_ms,
{
    let mut id: Vec<char> = Vec::new();
    push_str(&mut id, "mem-");
    push_signed_decimal(&mut id, now_ms);
    push_str(&mut id, "-");
    push_zero_padded(&mut id, counter, 4);
    assert(id@ =~= memory_id_text(now_ms, counter));
    let a = str_chars(user_input);
    let b = str_chars(assistant_output);
    let ta = chars_trim(&a);
    let tb = chars_trim(&b);
    let summary = chars_take(&tb, SUMMARY_MAX_CHARS);
    let mut raw: Vec<char> = Vec::new();
    push_str(&mut raw, "user: ");
    push_all(&mut raw, &ta);
    push_str(&mut raw, "\nassistant: ");
    push_all(&mut raw, &tb);
    assert(raw@ =~= turn_excerpt(user_input@, assistant_output@));
    MemoryRecord {
        id: string_from_chars(id.as_slice()),
        session_id: String::from_str(session_id),
        topic: String::from_str(session_id),
        summary: string_from_chars(summary.as_slice()),
        raw_excerpt: string_from_chars(raw.as_slice()),
        keywords: extract_keywords(user_input, assistant_output),
        importance: MemoryImportance::Medium,
        created_at_epoch_ms: now_ms,
    }
}

/// Writes turn records: stamps each with the current time and the next value of its
/// counter, which starts at one.
///
/// The counter belongs to the recorder value, not to the process: two recorders number
/// their records independently, so within one millisecond they can give two records the
/// same id. A program keeps one recorder for all its turns.
pub struct TurnRecorder {
    counter: u64,
}

impl TurnRecorder {
    /// The counter value the next record carries.
    pub closed spec fn next_counter(&self) -> u64 {
        self.counter
    }

    /// A recorder whose first record carries counter value one.
    pub fn new() -> (r: Self)
        ensures
            r.next_counter() == 1,
    {
        TurnRecorder { counter: 1 }
    }

    /// The record of one turn, stamped with the current time.
    pub fn record_turn(&mut self, session_id: &str, user_input: &str, assistant_output: &str) -> (r:
        MemoryRecord)
        ensures
            final(self).next_counter() == old(self).next_counter().wrapping_add(1),
            r.created_at_epoch_ms >= 0,
            r.id@ == memory_id_text(r.created_at_epoch_ms, old(self).next_counter()),
            r.session_id@ == session_id@,
            r.topic@ == session_id@,
            r.summary@ == take_chars(trim(assistant_output@), 300),
            r.raw_excerpt@ == turn_excerpt(user_input@, assistant_output@),
            string_views(r.keywords@) == spec_select_keywords(
                turn_tokens(user_input@, assistant_output@),
            ),
            r.importance == MemoryImportance::Medium,
    {
        let now_ms = crate::clock::current_time_millis();
        let counter = self.counter;
        self.counter = self.counter.wrapping_add(1);
        build_turn_record(session_id, user_input, assistant_output, now_ms, counter)
    }
}

/// One line of recalled memory: `{n}. [{topic}] {summary}` with the summary trimmed.
pub open spec fn recall_line(n: nat, topic: Seq<char>, summary: Seq<char>) -> Seq<char> {
    decimal(n) + ". ["@ + topic + "] "@ + trim(summary) + "\n"@
}

/// The recall lines of the first `k` records.
pub open spec fn recall_lines(records: Seq<MemoryRecord>, k: int) -> Seq<char>
    decreases k,
{
    if k <= 0 {
        Seq::empty()
    } else {
        recall_lines(records, k - 1) + recall_line(
            k as nat,
            records[k - 1].topic@,
            records[k - 1].summary@,
        )
    }
}

/// Recalled memory as prompt context: none for no records, otherwise a header line and
/// one numbered line per record.
pub open spec fn spec_render_recall_context(records: Seq<MemoryRecord>) -> Option<Seq<char>> {
    if records.len() == 0 {
        None
    } else {
        Some("Relevant prior memory:\n"@ + recall_lines(records, records.len() as int))
    }
}

/// Render recalled memory as prompt context.
pub fn render_recall_context(records: &[MemoryRecord]) -> (r: Option<String>)
    ensures
        match r {
            Some(s) => spec_render_recall_context(records@) == Some(s@),
            None => spec_render_recall_context(records@) is None,
        },
{
    if records.len() == 0 {
        return None;
    }
    let mut out: Vec<char> = Vec::new();
    push_str(&mut out, "Relevant prior memory:\n");
    let ghost head = out@;
    let mut i: usize = 0;
    while i < records.len()
        invariant
            i <= records@.len(),
            out@ == head + recall_lines(records@, i as int),
        decreases records@.len() - i,
    {
        let ghost before = out@;
        push_decimal(&mut out, (i + 1) as u64);
        push_str(&mut out, ". [");
        let topic = str_chars(records[i].topic.as_str());
        push_all(&mut out, &topic);
        push_str(&mut out, "] ");
        let summary = str_chars(records[i].summary.as_str());
        let ts = chars_trim(&summary);
        push_all(&mut out, &ts);
        push_str(&mut out, "\n");
        assert(out@ =~= before + recall_line(
            (i + 1) as nat,
            records@[i as int].topic@,
            records@[i as int].summary@,
        ));
        i = i + 1;
    }
    Some(string_from_chars(out.as_slice()))
}

/// Recall settings of the memory service.
#[derive(Debug, Clone, Copy, PartialEq, Eq)]
pub struct MemorySettings {
    /// Most memories recalled per turn.
    pub recall_limit: usize,
    /// Length of embedding vectors, at least one.
    pub vector_dimensions: usize,
    /// Whether embeddings are stored and searched.
    pub enable_vector: bool,
}

impl MemorySettings {
    /// Validated settings: the recall limit must be positive; the vector length is at least one.
    pub fn new(recall_limit: usize, vector_dimensions: usize, enable_vector: bool) -> (r: Result<
        Self,
        MemoryValidationError,
    >)
        ensures
            recall_limit == 0 <==> r matches Err(MemoryValidationError::InvalidRecallLimit),
            r matches Ok(s) ==> s.recall_limit == recall_limit && s.vector_dimensions == if vector_dimensions
                == 0 {
                1
            } else {
                vector_dimensions
            } && s.enable_vector == enable_vector,
    {
        if recall_limit == 0 {
            return Err(MemoryValidationError::InvalidRecallLimit);
        }
        let dims = if vector_dimensions == 0 {
            1
        } else {
            vector_dimensions
        };
        Ok(MemorySettings { recall_limit, vector_dimensions: dims, enable_vector })
    }
}

} // verus!
