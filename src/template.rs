use vstd::prelude::*;

verus! {

/// The character of a decimal digit.
pub open spec fn digit_char(d: nat) -> char {
    if d < 10 { (('0' as u8) + (d as u8)) as char } else { '?' }
}

/// The decimal notation of `n`, without leading zeros.
pub open spec fn decimal(n: nat) -> Seq<char>
    decreases n,
{
    if n < 10 {
        seq![digit_char(n)]
    } else {
        decimal(n / 10).push(digit_char(n % 10))
    }
}

/// Three decimal digits of `n < 1000`, zero-padded on the left.
pub open spec fn three_digits(n: nat) -> Seq<char> {
    seq![digit_char(n / 100), digit_char((n / 10) % 10), digit_char(n % 10)]
}

/// `n` divided by ten until it drops below a thousand.
pub open spec fn shrink_below_thousand(n: nat) -> nat
    decreases n,
{
    if n >= 1000 {
        shrink_below_thousand(n / 10)
    } else {
        n
    }
}

/// `s` with each occurrence of `pat` replaced by `rep`, scanning left to right and
/// never letting two occurrences overlap.
pub open spec fn replace_all(s: Seq<char>, pat: Seq<char>, rep: Seq<char>) -> Seq<char>
    decreases s.len(),
{
    if pat.len() == 0 || s.len() < pat.len() {
        s
    } else if s.subrange(0, pat.len() as int) == pat {
        rep + replace_all(s.subrange(pat.len() as int, s.len() as int), pat, rep)
    } else {
        seq![s[0]] + replace_all(s.drop_first(), pat, rep)
    }
}

/// `pat` occurs in `s` at position `i`.
pub open spec fn occurs_at(s: Seq<char>, pat: Seq<char>, i: int) -> bool {
    0 <= i && i + pat.len() <= s.len() && s.subrange(i, i + pat.len()) == pat
}

/// `pat` occurs nowhere in `s`.
pub open spec fn absent(s: Seq<char>, pat: Seq<char>) -> bool {
    forall|i: int| !#[trigger] occurs_at(s, pat, i)
}

/// The lines joined with a newline between each two.
pub open spec fn joined(lines: Seq<Seq<char>>) -> Seq<char>
    decreases lines.len(),
{
    if lines.len() == 0 {
        Seq::empty()
    } else if lines.len() == 1 {
        lines[0]
    } else {
        joined(lines.drop_last()) + seq!['\n'] + lines.last()
    }
}

/// The texts of a list of strings.
pub open spec fn texts(lines: Seq<String>) -> Seq<Seq<char>> {
    lines.map_values(|l: String| l@)
}

pub open spec fn potions_token() -> Seq<char> {
    "${potions}"@
}

pub open spec fn bucks_token() -> Seq<char> {
    "${bucks}"@
}

pub open spec fn title_token() -> Seq<char> {
    "${title}"@
}

pub open spec fn username_token() -> Seq<char> {
    "${username}"@
}

pub open spec fn password_token() -> Seq<char> {
    "${password}"@
}

/// How a group-level template reads once its placeholders are filled in.
pub open spec fn resolved_group(title: Seq<char>, min_potions: u64, min_bucks: u64, s: Seq<char>) -> Seq<char> {
    replace_all(
        replace_all(
            replace_all(s, potions_token(), decimal(min_potions as nat)),
            bucks_token(),
            three_digits(shrink_below_thousand(min_bucks as nat)),
        ),
        title_token(),
        title,
    )
}

/// How an account-level template reads once its placeholders are filled in.
pub open spec fn resolved_account(username: Seq<char>, password: Seq<char>, s: Seq<char>) -> Seq<char> {
    replace_all(replace_all(s, username_token(), username), password_token(), password)
}

/// Relies on `u64`'s `Display`, through `to_string`: its decimal notation.
#[verifier::external_body]
fn decimal_text(n: u64) -> (r: String)
    ensures
        r@ == decimal(n as nat),
{
    n.to_string()
}

/// Relies on `format!` with `{:03}`: a number below a thousand as three digits.
#[verifier::external_body]
fn padded_three(n: u64) -> (r: String)
    requires
        n < 1000,
    ensures
        r@ == three_digits(n as nat),
{
    format!("{:03}", n)
}

/// Relies on `str::replace`: every non-overlapping match of a non-empty pattern,
/// from left to right, gives way to the replacement.
#[verifier::external_body]
fn replace_text(s: &str, pat: &str, rep: &str) -> (r: String)
    requires
        pat@.len() > 0,
    ensures
        r@ == replace_all(s@, pat@, rep@),
{
    s.replace(pat, rep)
}

/// Divides `n` by ten until it is below a thousand, then writes it as three digits.
pub fn to_three_digits(n: u64) -> (r: String)
    ensures
        r@ == three_digits(shrink_below_thousand(n as nat)),
{
    let mut m: u64 = n;
    while m >= 1000
        invariant
            shrink_below_thousand(m as nat) == shrink_below_thousand(n as nat),
        decreases m,
    {
        m = m / 10;
    }
    padded_three(m)
}

/// Fills `${potions}`, `${bucks}` and `${title}` into a group-level template, in
/// that order.
pub fn resolve_group_string_with_references(title: &str, min_potion_count: u64, min_money_count: u64, string: &str) -> (r: String)
    ensures
        r@ == resolved_group(title@, min_potion_count, min_money_count, string@),
{
    proof {
        reveal_strlit("${potions}");
        reveal_strlit("${bucks}");
        reveal_strlit("${title}");
    }
    let potions = decimal_text(min_potion_count);
    let bucks = to_three_digits(min_money_count);
    let a = replace_text(string, "${potions}", potions.as_str());
    let b = replace_text(a.as_str(), "${bucks}", bucks.as_str());
    replace_text(b.as_str(), "${title}", title)
}

/// Fills `${username}` and `${password}` into an account-level template, in that
/// order.
pub fn resolve_account_string_with_references(username: &str, password: &str, string: &str) -> (r: String)
    ensures
        r@ == resolved_account(username@, password@, string@),
{
    proof {
        reveal_strlit("${username}");
        reveal_strlit("${password}");
    }
    let a = replace_text(string, "${username}", username);
    replace_text(a.as_str(), "${password}", password)
}

/// Joins the lines with a newline between each two.
pub fn join_lines(lines: &Vec<String>) -> (r: String)
    ensures
        r@ == joined(texts(lines@)),
{
    let mut out = String::new();
    let mut i: usize = 0;
    while i < lines.len()
        invariant
            i <= lines@.len(),
            out@ == joined(texts(lines@.subrange(0, i as int))),
        decreases lines@.len() - i,
    {
        let ghost before = texts(lines@.subrange(0, i as int));
        let ghost after = texts(lines@.subrange(0, i as int + 1));
        assert(after.drop_last() =~= before);
        assert(after.len() == i + 1);
        assert(after.last() == lines@[i as int]@);
        if i == 0 {
            assert(before.len() == 0);
        }
        if i > 0 {
            out.append("\n");
            proof {
                reveal_strlit("\n");
            }
            assert(joined(after) == joined(before) + seq!['\n'] + after.last());
        }
        out.append(lines[i].as_str());
        assert(out@ =~= joined(after));
        i += 1;
    }
    assert(lines@.subrange(0, lines@.len() as int) =~= lines@);
    out
}

/// Replacing a pattern that occurs nowhere leaves the text as it was.
pub proof fn lemma_replace_absent(s: Seq<char>, pat: Seq<char>, rep: Seq<char>)
    requires
        absent(s, pat),
    ensures
        replace_all(s, pat, rep) == s,
    decreases s.len(),
{
    if pat.len() > 0 && s.len() >= pat.len() {
        assert(!occurs_at(s, pat, 0));
        let rest = s.drop_first();
        assert forall|i: int| !#[trigger] occurs_at(rest, pat, i) by {
            if occurs_at(rest, pat, i) {
                assert(s.subrange(i + 1, i + 1 + pat.len()) =~= rest.subrange(i, i + pat.len()));
                assert(occurs_at(s, pat, i + 1));
            }
        }
        lemma_replace_absent(rest, pat, rep);
        assert(seq![s[0]] + rest =~= s);
    }
}

/// A group-level template that holds none of `${potions}`, `${bucks}` and
/// `${title}` comes out unchanged.
pub proof fn law_group_template_without_placeholders(title: Seq<char>, min_potions: u64, min_bucks: u64, s: Seq<char>)
    requires
        absent(s, potions_token()),
        absent(s, bucks_token()),
        absent(s, title_token()),
    ensures
        resolved_group(title, min_potions, min_bucks, s) == s,
{
    lemma_replace_absent(s, potions_token(), decimal(min_potions as nat));
    lemma_replace_absent(s, bucks_token(), three_digits(shrink_below_thousand(min_bucks as nat)));
    lemma_replace_absent(s, title_token(), title);
}

/// An account-level template that holds neither `${username}` nor `${password}`
/// comes out unchanged.
pub proof fn law_account_template_without_placeholders(username: Seq<char>, password: Seq<char>, s: Seq<char>)
    requires
        absent(s, username_token()),
        absent(s, password_token()),
    ensures
        resolved_account(username, password, s) == s,
{
    lemma_replace_absent(s, username_token(), username);
    lemma_replace_absent(s, password_token(), password);
}

} // verus!
