use vstd::prelude::*;

verus! {

/// Horizontal whitespace: tab, vertical tab, form feed, carriage return, space.
pub open spec fn is_blank(c: char) -> bool {
    c == '\t' || c == '\x0B' || c == '\x0C' || c == '\r' || c == ' '
}

/// Unicode whitespace (the `White_Space` property), which includes line breaks.
pub open spec fn is_space(c: char) -> bool {
    ('\t' <= c && c <= '\r') || c == ' ' || c == '\u{85}' || c == '\u{a0}' || c == '\u{1680}' || (
    '\u{2000}' <= c && c <= '\u{200a}') || c == '\u{2028}' || c == '\u{2029}' || c == '\u{202f}'
        || c == '\u{205f}' || c == '\u{3000}'
}

/// `s` with every run of horizontal whitespace replaced by one space.
pub open spec fn collapse_blanks(s: Seq<char>) -> Seq<char>
    decreases s.len(),
{
    if s.len() == 0 {
        s
    } else {
        let init = s.drop_last();
        let c = s.last();
        if is_blank(c) {
            if init.len() > 0 && is_blank(init.last()) {
                collapse_blanks(init)
            } else {
                collapse_blanks(init).push(' ')
            }
        } else {
            collapse_blanks(init).push(c)
        }
    }
}

/// The length of the longest prefix of `s` made of whitespace.
pub open spec fn space_run(s: Seq<char>) -> nat
    decreases s.len(),
{
    if s.len() > 0 && is_space(s[0]) {
        1 + space_run(s.drop_first())
    } else {
        0
    }
}

/// How many line feeds `s` holds.
pub open spec fn count_newlines(s: Seq<char>) -> nat
    decreases s.len(),
{
    if s.len() == 0 {
        0
    } else {
        (if s[0] == '\n' {
            1nat
        } else {
            0nat
        }) + count_newlines(s.drop_first())
    }
}

/// `s` with every stretch of whitespace that starts at a line feed and holds two
/// or more line feeds replaced by exactly two line feeds.
pub open spec fn collapse_breaks(s: Seq<char>) -> Seq<char>
    decreases s.len(),
    via collapse_breaks_decreases
{
    if s.len() == 0 {
        s
    } else if s[0] == '\n' {
        let k = space_run(s);
        if k == 0 {
            s
        } else if count_newlines(s.take(k as int)) >= 2 {
            seq!['\n', '\n'] + collapse_breaks(s.skip(k as int))
        } else {
            s.take(k as int) + collapse_breaks(s.skip(k as int))
        }
    } else {
        seq![s[0]] + collapse_breaks(s.drop_first())
    }
}

/// A whitespace prefix is no longer than the text.
pub proof fn lemma_space_run(s: Seq<char>)
    ensures
        space_run(s) <= s.len(),
        forall|i: int| 0 <= i < space_run(s) ==> is_space(#[trigger] s[i]),
        space_run(s) < s.len() ==> !is_space(s[space_run(s) as int]),
    decreases s.len(),
{
    if s.len() > 0 && is_space(s[0]) {
        lemma_space_run(s.drop_first());
        assert forall|i: int| 0 <= i < space_run(s) implies is_space(#[trigger] s[i]) by {
            if i > 0 {
                assert(s[i] == s.drop_first()[i - 1]);
            }
        }
        if space_run(s) < s.len() {
            assert(s[space_run(s) as int] == s.drop_first()[space_run(s.drop_first()) as int]);
        }
    }
}

#[via_fn]
proof fn collapse_breaks_decreases(s: Seq<char>) {
    lemma_space_run(s);
}

/// Normalized text: horizontal whitespace collapsed, then runs of blank lines
/// collapsed to one blank line.
pub open spec fn normalized(s: Seq<char>) -> Seq<char> {
    collapse_breaks(collapse_blanks(s))
}

/// No tab, vertical tab, form feed or carriage return, and no two spaces in a row.
pub open spec fn blank_free(s: Seq<char>) -> bool {
    forall|i: int|
        0 <= i < s.len() ==> (is_blank(#[trigger] s[i]) ==> s[i] == ' ') && (s[i] == ' ' && i > 0
            ==> s[i - 1] != ' ')
}

proof fn lemma_blank_free_sub(s: Seq<char>, a: int, b: int)
    requires
        blank_free(s),
        0 <= a <= b <= s.len(),
    ensures
        blank_free(s.subrange(a, b)),
{
    let t = s.subrange(a, b);
    assert forall|i: int| 0 <= i < t.len() implies (is_blank(#[trigger] t[i]) ==> t[i] == ' ') && (
    t[i] == ' ' && i > 0 ==> t[i - 1] != ' ') by {
        assert(t[i] == s[a + i]);
        if i > 0 {
            assert(t[i - 1] == s[a + i - 1]);
        }
    }
}

proof fn lemma_blank_free_concat(a: Seq<char>, b: Seq<char>)
    requires
        blank_free(a),
        blank_free(b),
        !(a.len() > 0 && b.len() > 0 && a.last() == ' ' && b[0] == ' '),
    ensures
        blank_free(a + b),
{
    let t = a + b;
    assert forall|i: int| 0 <= i < t.len() implies (is_blank(#[trigger] t[i]) ==> t[i] == ' ') && (
    t[i] == ' ' && i > 0 ==> t[i - 1] != ' ') by {
        if i < a.len() {
            assert(t[i] == a[i]);
            if i > 0 {
                assert(t[i - 1] == a[i - 1]);
            }
        } else {
            assert(t[i] == b[i - a.len()]);
            if i > a.len() {
                assert(t[i - 1] == b[i - 1 - a.len()]);
            } else if i > 0 {
                assert(t[i - 1] == a.last());
            }
        }
    }
}

/// Collapsing horizontal whitespace leaves no run of it behind.
proof fn lemma_collapse_blanks_blank_free(s: Seq<char>)
    ensures
        blank_free(collapse_blanks(s)),
        collapse_blanks(s).len() == 0 <==> s.len() == 0,
        s.len() > 0 ==> (collapse_blanks(s).last() == ' ' <==> is_blank(s.last())),
    decreases s.len(),
{
    if s.len() > 0 {
        let init = s.drop_last();
        let c = s.last();
        lemma_collapse_blanks_blank_free(init);
        let p = collapse_blanks(init);
        if is_blank(c) {
            if init.len() > 0 && is_blank(init.last()) {
            } else {
                lemma_blank_free_concat(p, seq![' ']);
                assert(p + seq![' '] =~= p.push(' '));
            }
        } else {
            lemma_blank_free_concat(p, seq![c]);
            assert(p + seq![c] =~= p.push(c));
        }
    }
}

/// Text without runs of horizontal whitespace is left as it is.
proof fn lemma_collapse_blanks_fixed(s: Seq<char>)
    requires
        blank_free(s),
    ensures
        collapse_blanks(s) == s,
    decreases s.len(),
{
    if s.len() > 0 {
        let init = s.drop_last();
        lemma_blank_free_sub(s, 0, s.len() - 1);
        assert(init =~= s.subrange(0, s.len() - 1));
        lemma_collapse_blanks_fixed(init);
        assert(s[s.len() - 1] == s.last());
        if init.len() > 0 {
            assert(init.last() == s[s.len() - 2]);
        }
        assert(init.push(s.last()) =~= s);
    }
}

/// A whitespace-only prefix followed by a non-space is the whole whitespace run.
proof fn lemma_space_run_concat(a: Seq<char>, b: Seq<char>)
    requires
        forall|i: int| 0 <= i < a.len() ==> is_space(#[trigger] a[i]),
        b.len() == 0 || !is_space(b[0]),
    ensures
        space_run(a + b) == a.len(),
    decreases a.len(),
{
    if a.len() == 0 {
        assert(a + b =~= b);
    } else {
        assert((a + b).drop_first() =~= a.drop_first() + b);
        assert forall|i: int| 0 <= i < a.drop_first().len() implies is_space(
            #[trigger] a.drop_first()[i],
        ) by {
            assert(a.drop_first()[i] == a[i + 1]);
        }
        lemma_space_run_concat(a.drop_first(), b);
        assert((a + b)[0] == a[0]);
    }
}

/// Collapsing line breaks keeps the first character and adds no run of
/// horizontal whitespace.
proof fn lemma_collapse_breaks_shape(t: Seq<char>)
    ensures
        t.len() == 0 ==> collapse_breaks(t).len() == 0,
        t.len() > 0 ==> collapse_breaks(t).len() > 0 && collapse_breaks(t)[0] == t[0],
        blank_free(t) ==> blank_free(collapse_breaks(t)),
    decreases t.len(),
{
    if t.len() > 0 {
        if t[0] == '\n' {
            let k = space_run(t);
            lemma_space_run(t);
            assert(is_space(t[0]));
            let rest = t.skip(k as int);
            lemma_collapse_breaks_shape(rest);
            if blank_free(t) {
                lemma_blank_free_sub(t, k as int, t.len() as int);
                assert(rest =~= t.subrange(k as int, t.len() as int));
            }
            if count_newlines(t.take(k as int)) >= 2 {
                let nn = seq!['\n', '\n'];
                assert((nn + collapse_breaks(rest))[0] == '\n');
                if blank_free(t) {
                    assert(blank_free(nn));
                    lemma_blank_free_concat(nn, collapse_breaks(rest));
                }
            } else {
                let head = t.take(k as int);
                assert((head + collapse_breaks(rest))[0] == head[0]);
                if blank_free(t) {
                    lemma_blank_free_sub(t, 0, k as int);
                    assert(head =~= t.subrange(0, k as int));
                    if rest.len() > 0 {
                        assert(rest[0] == t[k as int]);
                        assert(head.last() == t[k - 1]);
                    }
                    lemma_blank_free_concat(head, collapse_breaks(rest));
                }
            }
        } else {
            let rest = t.drop_first();
            lemma_collapse_breaks_shape(rest);
            assert((seq![t[0]] + collapse_breaks(rest))[0] == t[0]);
            if blank_free(t) {
                lemma_blank_free_sub(t, 1, t.len() as int);
                assert(rest =~= t.subrange(1, t.len() as int));
                assert(blank_free(seq![t[0]]));
                if rest.len() > 0 {
                    assert(rest[0] == t[1]);
                }
                lemma_blank_free_concat(seq![t[0]], collapse_breaks(rest));
            }
        }
    }
}

/// Collapsing line breaks twice gives what collapsing once gives.
proof fn lemma_collapse_breaks_idempotent(t: Seq<char>)
    ensures
        collapse_breaks(collapse_breaks(t)) == collapse_breaks(t),
    decreases t.len(),
{
    if t.len() > 0 {
        if t[0] == '\n' {
            let k = space_run(t);
            lemma_space_run(t);
            assert(is_space(t[0]));
            let rest = t.skip(k as int);
            let cr = collapse_breaks(rest);
            lemma_collapse_breaks_shape(rest);
            lemma_collapse_breaks_idempotent(rest);
            if k < t.len() {
                assert(rest[0] == t[k as int]);
            }
            if count_newlines(t.take(k as int)) >= 2 {
                let nn = seq!['\n', '\n'];
                let u = nn + cr;
                assert forall|i: int| 0 <= i < nn.len() implies is_space(#[trigger] nn[i]) by {}
                lemma_space_run_concat(nn, cr);
                assert(u.take(2) =~= nn);
                assert(u.skip(2) =~= cr);
                assert(nn.drop_first() =~= seq!['\n']);
                let one = seq!['\n'];
                assert(one.drop_first() =~= Seq::<char>::empty());
                assert(count_newlines(one.drop_first()) == 0);
                assert(one[0] == '\n');
                assert(count_newlines(one) == 1);
                assert(count_newlines(nn) == 2);
            } else {
                let head = t.take(k as int);
                let u = head + cr;
                assert forall|i: int| 0 <= i < head.len() implies is_space(#[trigger] head[i]) by {
                    assert(head[i] == t[i]);
                }
                lemma_space_run_concat(head, cr);
                assert(u.take(k as int) =~= head);
                assert(u.skip(k as int) =~= cr);
                assert(u[0] == t[0]);
            }
        } else {
            let rest = t.drop_first();
            let cr = collapse_breaks(rest);
            lemma_collapse_breaks_idempotent(rest);
            let u = seq![t[0]] + cr;
            assert(u.drop_first() =~= cr);
            assert(u[0] == t[0]);
        }
    }
}

/// Normalizing text that is already normalized leaves it unchanged.
pub proof fn lemma_normalized_idempotent(s: Seq<char>)
    ensures
        normalized(normalized(s)) == normalized(s),
{
    let t = collapse_blanks(s);
    lemma_collapse_blanks_blank_free(s);
    lemma_collapse_breaks_shape(t);
    let u = collapse_breaks(t);
    lemma_collapse_blanks_fixed(u);
    lemma_collapse_breaks_idempotent(t);
}

/// Relies on regex::Regex::new and Regex::replace_all: every leftmost-first,
/// non-overlapping match of `pattern` in `text` is replaced by `replacement`.
/// The contract states the result for the two patterns the normalization uses.
#[verifier::external_body]
fn regex_replace_all(pattern: &str, text: &str, replacement: &str) -> (r: Option<String>)
    ensures
        (pattern@ == "[\\t\\v\\f\\r ]+"@ && replacement@ == " "@) ==> (r is Some && r->0@
            == collapse_blanks(text@)),
        (pattern@ == "(\\n\\s*){2,}"@ && replacement@ == "\n\n"@) ==> (r is Some && r->0@
            == collapse_breaks(text@)),
{
    match regex::Regex::new(pattern) {
        Ok(re) => Some(re.replace_all(text, replacement).into_owned()),
        Err(_) => None,
    }
}

/// Collapses runs of horizontal whitespace to one space and runs of two or
/// more line breaks (with any whitespace among them) to one blank line.
pub fn strip_whitespaces_and_linebreaks(input: &str) -> (r: String)
    ensures
        r@ == normalized(input@),
{
    let spaced = match regex_replace_all("[\\t\\v\\f\\r ]+", input, " ") {
        Some(t) => t,
        None => String::new(),
    };
    match regex_replace_all("(\\n\\s*){2,}", spaced.as_str(), "\n\n") {
        Some(t) => t,
        None => String::new(),
    }
}

} // verus!
