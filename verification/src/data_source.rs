//! Decisions taken while resolving the files of a listing table: the names
//! given to the columns of CSV files whose headers were generated, the
//! recognition of the CSV extension, and the refusal of paths without files.

use vstd::prelude::*;
use crate::text::{digit_char, digits_of, lemma_digits_injective, push_decimal};

verus! {

/// The characters with the Unicode `White_Space` property, which
/// `char::is_whitespace` recognizes.
pub open spec fn is_white_space(c: char) -> bool {
    let u = c as u32;
    ||| 0x09 <= u <= 0x0d
    ||| u == 0x20
    ||| u == 0x85
    ||| u == 0xa0
    ||| u == 0x1680
    ||| 0x2000 <= u <= 0x200a
    ||| u == 0x2028
    ||| u == 0x2029
    ||| u == 0x202f
    ||| u == 0x205f
    ||| u == 0x3000
}

/// The number of white space characters that start `s`.
pub open spec fn leading_white_space(s: Seq<char>) -> nat
    decreases s.len(),
{
    if s.len() > 0 && is_white_space(s[0]) {
        1 + leading_white_space(s.drop_first())
    } else {
        0
    }
}

/// The number of white space characters that end `s`.
pub open spec fn trailing_white_space(s: Seq<char>) -> nat
    decreases s.len(),
{
    if s.len() > 0 && is_white_space(s.last()) {
        1 + trailing_white_space(s.drop_last())
    } else {
        0
    }
}

/// `s` without its leading and trailing white space, as `str::trim` gives it.
pub open spec fn trim(s: Seq<char>) -> Seq<char> {
    let t = s.skip(leading_white_space(s) as int);
    t.take(t.len() - trailing_white_space(t))
}

/// Whether every character of `s` is an ASCII decimal digit.
pub open spec fn all_digits(s: Seq<char>) -> bool {
    forall|i: int| 0 <= i < s.len() ==> '0' <= #[trigger] s[i] <= '9'
}

/// The number that the decimal digits `s` write.
pub open spec fn digits_value(s: Seq<char>) -> nat
    decreases s.len(),
{
    if s.len() == 0 {
        0
    } else {
        digits_value(s.drop_last()) * 10 + (s.last() as nat - 48) as nat
    }
}

/// What `str::parse::<usize>` gives: an optional `+` followed by at least one
/// decimal digit, and no more than `usize::MAX`.
pub open spec fn parse_usize(s: Seq<char>) -> Option<nat> {
    let d = if s.len() > 0 && s[0] == '+' {
        s.drop_first()
    } else {
        s
    };
    if d.len() > 0 && all_digits(d) && digits_value(d) <= usize::MAX {
        Some(digits_value(d))
    } else {
        None
    }
}

/// The prefix of the column names that CSV readers generate.
pub open spec fn generated_prefix() -> Seq<char> {
    seq!['c', 'o', 'l', 'u', 'm', 'n', '_']
}

/// Whether `s` starts with the generated prefix.
pub open spec fn is_generated_name(s: Seq<char>) -> bool {
    s.len() >= 7 && s.take(7) == generated_prefix()
}

/// The positional name `_c` followed by `i`.
pub open spec fn positional_name(i: nat) -> Seq<char> {
    seq!['_', 'c'] + digits_of(i)
}

/// The new name of one column: a generated name `column_N` becomes
/// `_c(N - 1)` (`_c0` for `N` zero); another name stays; `None` where the
/// number of a generated name does not parse.
pub open spec fn renamed_column(s: Seq<char>) -> Option<Seq<char>> {
    if is_generated_name(s) {
        match parse_usize(trim(s.skip(7))) {
            Some(n) => Some(positional_name(if n > 0 {
                (n - 1) as nat
            } else {
                0
            })),
            None => None,
        }
    } else {
        Some(s)
    }
}

/// Whether no two names of `s` are equal.
pub open spec fn no_duplicates(s: Seq<Seq<char>>) -> bool {
    forall|i: int, j: int| 0 <= i < j < s.len() ==> s[i] != s[j]
}

/// Whether every name of `names` has a new name.
pub open spec fn all_renamed(names: Seq<Seq<char>>) -> bool {
    forall|i: int| 0 <= i < names.len() ==> (#[trigger] renamed_column(names[i])) is Some
}

/// The new names of `names`, where each has one.
pub open spec fn renamed_columns(names: Seq<Seq<char>>) -> Seq<Seq<char>> {
    names.map_values(|s: Seq<char>| renamed_column(s).unwrap())
}

/// The positional names `_c0`, `_c1`, ... of `n` columns.
pub open spec fn positional_names(n: nat) -> Seq<Seq<char>> {
    Seq::new(n, |i: int| positional_name(i as nat))
}

/// The names that the columns of a CSV file get: the new names of its
/// columns when each has one and no two are equal, else the positional names.
pub open spec fn csv_column_names(names: Seq<Seq<char>>) -> Seq<Seq<char>> {
    if all_renamed(names) && no_duplicates(renamed_columns(names)) {
        renamed_columns(names)
    } else {
        positional_names(names.len())
    }
}

/// The texts of a sequence of strings.
pub open spec fn texts(v: Seq<String>) -> Seq<Seq<char>> {
    v.map_values(|s: String| s@)
}

/// `char::is_whitespace`, written over the code points of `White_Space`.
fn is_white_space_char(c: char) -> (r: bool)
    ensures
        r == is_white_space(c),
{
    let u = c as u32;
    (0x09 <= u && u <= 0x0d) || u == 0x20 || u == 0x85 || u == 0xa0 || u == 0x1680 || (0x2000 <= u
        && u <= 0x200a) || u == 0x2028 || u == 0x2029 || u == 0x202f || u == 0x205f || u == 0x3000
}

/// `s` without its leading and trailing white space.
pub fn trim_str(s: &str) -> (r: &str)
    ensures
        r@ == trim(s@),
{
    let n = s.unicode_len();
    let mut a: usize = 0;
    assert(s@.skip(0) =~= s@);
    while a < n && is_white_space_char(s.get_char(a))
        invariant
            n == s@.len(),
            a <= n,
            leading_white_space(s@) == a + leading_white_space(s@.skip(a as int)),
        decreases n - a,
    {
        assert(s@.skip(a as int).drop_first() =~= s@.skip(a + 1));
        a += 1;
    }
    assert(leading_white_space(s@.skip(a as int)) == 0) by {
        if a == n {
            assert(s@.skip(a as int).len() == 0);
        }
    }
    let ghost t = s@.skip(a as int);
    let mut b: usize = n;
    assert(t.take(n - a) =~= t);
    while b > a && is_white_space_char(s.get_char(b - 1))
        invariant
            n == s@.len(),
            a <= b <= n,
            t == s@.skip(a as int),
            trailing_white_space(t) == (n - b) + trailing_white_space(t.take(b - a)),
        decreases b,
    {
        assert(t.take(b - a).drop_last() =~= t.take(b - 1 - a));
        assert(t.take(b - a).last() == s@[b - 1]);
        b -= 1;
    }
    assert(trailing_white_space(t.take(b - a)) == 0) by {
        if b == a {
            assert(t.take(b - a).len() == 0);
        }
    }
    let r = s.substring_char(a, b);
    assert(r@ =~= trim(s@));
    r
}

/// A longer prefix of digits writes no smaller number.
proof fn lemma_digits_value_prefix(s: Seq<char>, j: int, k: int)
    requires
        0 <= j <= k <= s.len(),
    ensures
        digits_value(s.take(j)) <= digits_value(s.take(k)),
    decreases k - j,
{
    if j < k {
        lemma_digits_value_prefix(s, j, k - 1);
        assert(s.take(k).drop_last() =~= s.take(k - 1));
    }
}

/// `str::parse::<usize>` on `s`: an optional `+` followed by decimal digits
/// whose number fits in a `usize`.
pub fn parse_usize_str(s: &str) -> (r: Option<usize>)
    ensures
        match r {
            Some(v) => parse_usize(s@) == Some(v as nat),
            None => parse_usize(s@) is None,
        },
{
    let n = s.unicode_len();
    let start: usize = if n > 0 && s.get_char(0) == '+' {
        1
    } else {
        0
    };
    let ghost d = if s@.len() > 0 && s@[0] == '+' {
        s@.drop_first()
    } else {
        s@
    };
    assert(d =~= s@.skip(start as int));
    if start == n {
        return None;
    }
    let mut value: u128 = 0;
    let mut k: usize = start;
    while k < n
        invariant
            n == s@.len(),
            start <= k <= n,
            d =~= s@.skip(start as int),
            d == (if s@.len() > 0 && s@[0] == '+' {
                s@.drop_first()
            } else {
                s@
            }),
            all_digits(d.take(k - start)),
            value == digits_value(d.take(k - start)),
            value <= usize::MAX,
        decreases n - k,
    {
        let c = s.get_char(k);
        let u = c as u32;
        if u < 48 || u > 57 {
            assert(!all_digits(d)) by {
                assert(d[k - start] == c);
            }
            assert(parse_usize(s@) is None);
            return None;
        }
        assert(d.take(k + 1 - start).drop_last() =~= d.take(k - start));
        value = value * 10 + (u - 48) as u128;
        assert(all_digits(d.take(k + 1 - start))) by {
            assert forall|i: int| 0 <= i < k + 1 - start implies '0' <= #[trigger] d.take(
                k + 1 - start,
            )[i] <= '9' by {
                if i < k - start {
                    assert(d.take(k - start)[i] == d.take(k + 1 - start)[i]);
                }
            }
        }
        if value > usize::MAX as u128 {
            proof {
                lemma_digits_value_prefix(d, k + 1 - start, d.len() as int);
                assert(d.take(d.len() as int) =~= d);
            }
            assert(parse_usize(s@) is None);
            return None;
        }
        k += 1;
    }
    assert(d.take(n - start) =~= d);
    assert(parse_usize(s@) == Some(value as nat));
    Some(value as usize)
}

/// Whether `s` starts with the generated prefix `column_`.
fn starts_with_generated_prefix(s: &str) -> (r: bool)
    ensures
        r == is_generated_name(s@),
{
    let n = s.unicode_len();
    if n < 7 {
        return false;
    }
    let p = "column_";
    proof {
        reveal_strlit("column_");
        assert(p@ =~= generated_prefix());
    }
    let mut k: usize = 0;
    while k < 7
        invariant
            n == s@.len(),
            7 <= n,
            p@ == generated_prefix(),
            k <= 7,
            forall|j: int| 0 <= j < k ==> s@[j] == generated_prefix()[j],
        decreases 7 - k,
    {
        if s.get_char(k) != p.get_char(k) {
            assert(s@.take(7)[k as int] != generated_prefix()[k as int]);
            return false;
        }
        k += 1;
    }
    assert(s@.take(7) =~= generated_prefix());
    true
}

/// The new name of one column, where it has one.
fn rename_column(name: &String) -> (r: Option<String>)
    ensures
        match r {
            Some(x) => renamed_column(name@) == Some(x@),
            None => renamed_column(name@) is None,
        },
{
    let s = name.as_str();
    if starts_with_generated_prefix(s) {
        let rest = s.substring_char(7, s.unicode_len());
        assert(rest@ =~= s@.skip(7));
        let t = trim_str(rest);
        match parse_usize_str(t) {
            Some(n) => {
                let m: usize = if n > 0 {
                    n - 1
                } else {
                    0
                };
                let mut r = String::from_str("_c");
                proof {
                    reveal_strlit("_c");
                }
                push_decimal(&mut r, m as u64);
                assert(r@ =~= positional_name(m as nat));
                Some(r)
            },
            None => None,
        }
    } else {
        Some(name.clone())
    }
}

/// The positional name `_c` followed by `i`.
fn positional_name_string(i: usize) -> (r: String)
    ensures
        r@ == positional_name(i as nat),
{
    let mut r = String::from_str("_c");
    proof {
        reveal_strlit("_c");
    }
    push_decimal(&mut r, i as u64);
    assert(r@ =~= positional_name(i as nat));
    r
}

/// Renames the columns of a CSV file whose header names were generated as
/// `column_1`, `column_2`, ...: each `column_N` becomes `_c(N - 1)`. Where
/// a number does not parse or two columns would share a name, the columns are
/// named by position instead: `_c0`, `_c1`, ...
pub fn rename_default_csv_columns(names: &Vec<String>) -> (r: Vec<String>)
    ensures
        texts(r@) == csv_column_names(texts(names@)),
{
    let ghost input = texts(names@);
    let n = names.len();
    let mut renamed: Vec<String> = Vec::new();
    let mut k: usize = 0;
    while k < n
        invariant
            n == names.len(),
            input == texts(names@),
            k <= n,
            renamed.len() == k,
            all_renamed(input.take(k as int)),
            texts(renamed@) == renamed_columns(input.take(k as int)),
            no_duplicates(texts(renamed@)),
        decreases n - k,
    {
        assert(input[k as int] == names@[k as int]@);
        match rename_column(&names[k]) {
            None => {
                assert(!all_renamed(input)) by {
                    assert(renamed_column(input[k as int]) is None);
                }
                return positional_columns(n, Ghost(input));
            },
            Some(x) => {
                let mut j: usize = 0;
                let mut dup = false;
                while j < k
                    invariant
                        j <= k,
                        renamed.len() == k,
                        !dup ==> forall|i: int| 0 <= i < j ==> renamed@[i]@ != x@,
                        dup ==> exists|i: int| 0 <= i < k && renamed@[i]@ == x@,
                    decreases k - j,
                {
                    if renamed[j] == x {
                        dup = true;
                    }
                    j += 1;
                }
                if dup {
                    assert(!(all_renamed(input) && no_duplicates(renamed_columns(input)))) by {
                        if all_renamed(input) {
                            let i = choose|i: int| 0 <= i < k && renamed@[i]@ == x@;
                            assert(input.take(k as int)[i] == input[i]);
                            assert(texts(renamed@)[i] == renamed_columns(input.take(k as int))[i]);
                            assert(renamed_columns(input)[i] == texts(renamed@)[i]);
                            assert(renamed_column(input[k as int]) is Some);
                            assert(renamed_columns(input)[k as int] == x@);
                        }
                    }
                    return positional_columns(n, Ghost(input));
                }
                let ghost before = renamed@;
                renamed.push(x);
                assert(texts(renamed@) =~= renamed_columns(input.take(k + 1))) by {
                    assert forall|i: int| 0 <= i < k + 1 implies texts(renamed@)[i]
                        == renamed_columns(input.take(k + 1))[i] by {
                        if i < k {
                            assert(input.take(k + 1)[i] == input.take(k as int)[i]);
                            assert(texts(before)[i] == renamed_columns(input.take(k as int))[i]);
                        }
                    }
                }
                assert(all_renamed(input.take(k + 1))) by {
                    assert forall|i: int| 0 <= i < k + 1 implies (#[trigger] renamed_column(
                        input.take(k + 1)[i],
                    )) is Some by {
                        if i < k {
                            assert(input.take(k + 1)[i] == input.take(k as int)[i]);
                        }
                    }
                }
                assert(no_duplicates(texts(renamed@))) by {
                    assert forall|a: int, b: int|
                        0 <= a < b < renamed@.len() implies texts(renamed@)[a] != texts(
                        renamed@,
                    )[b] by {
                        if b < k {
                            assert(texts(before)[a] != texts(before)[b]);
                        } else {
                            assert(texts(renamed@)[a] == before[a]@);
                        }
                    }
                }
            },
        }
        k += 1;
    }
    assert(input.take(n as int) =~= input);
    renamed
}

/// The positional names of `n` columns, for columns whose new names fail.
fn positional_columns(n: usize, Ghost(names): Ghost<Seq<Seq<char>>>) -> (r: Vec<String>)
    requires
        names.len() == n,
        !(all_renamed(names) && no_duplicates(renamed_columns(names))),
    ensures
        texts(r@) == csv_column_names(names),
{
    let mut positional: Vec<String> = Vec::new();
    let mut i: usize = 0;
    while i < n
        invariant
            i <= n,
            texts(positional@) =~= positional_names(i as nat),
        decreases n - i,
    {
        let name = positional_name_string(i);
        let ghost before = positional@;
        positional.push(name);
        assert(texts(positional@) =~= texts(before).push(positional_name(i as nat)));
        i += 1;
    }
    positional
}

/// The names `column_1`, ..., `column_k` that a CSV reader generates for a
/// file of `k` columns without a header.
pub open spec fn generated_names(k: nat) -> Seq<Seq<char>> {
    Seq::new(k, |j: int| seq!['c', 'o', 'l', 'u', 'm', 'n', '_'] + digits_of((j + 1) as nat))
}

/// The decimal digits of a number are digits, start with a digit, and write
/// the number.
pub proof fn lemma_digits_parse(n: nat)
    ensures
        digits_of(n).len() > 0,
        all_digits(digits_of(n)),
        digits_value(digits_of(n)) == n,
        n >= 1 ==> digits_of(n)[0] != '0',
    decreases n,
{
    crate::text::lemma_digits_len(n);
    if n >= 10 {
        lemma_digits_parse(n / 10);
        let d = digits_of(n);
        assert(d.drop_last() =~= digits_of(n / 10));
        assert(d.last() == digit_char(n % 10));
        assert(forall|i: int| 0 <= i < d.len() - 1 ==> d[i] == digits_of(n / 10)[i]);
        assert(d[0] == digits_of(n / 10)[0]);
        lemma_digit_char_value(n % 10);
        assert(digits_value(d) == digits_value(d.drop_last()) * 10 + (d.last() as nat - 48) as nat);
        assert(digits_value(d) == (n / 10) * 10 + n % 10);
    } else {
        assert(digits_of(n) =~= seq![digit_char(n)]);
        assert(digits_of(n).drop_last() =~= Seq::<char>::empty());
        lemma_digit_char_value(n);
        assert(digits_value(digits_of(n)) == digits_value(Seq::<char>::empty()) * 10 + (digit_char(n) as nat - 48) as nat);
    }
}

/// The character of a decimal digit is a digit that writes it.
proof fn lemma_digit_char_value(d: nat)
    requires
        d < 10,
    ensures
        '0' <= digit_char(d) <= '9',
        digit_char(d) as nat - 48 == d,
{
    assert('0' as nat == 48);
    assert('9' as nat == 57);
    if d == 0 {} else if d == 1 {} else if d == 2 {} else if d == 3 {} else if d == 4 {
    } else if d == 5 {} else if d == 6 {} else if d == 7 {} else if d == 8 {} else {}
}

/// A text of decimal digits has no white space to trim.
proof fn lemma_trim_digits(s: Seq<char>)
    requires
        s.len() > 0,
        all_digits(s),
    ensures
        trim(s) == s,
{
    assert(!is_white_space(s[0]));
    assert(leading_white_space(s) == 0);
    assert(s.skip(0) =~= s);
    assert(!is_white_space(s.last()));
    assert(trailing_white_space(s) == 0);
    assert(s.take(s.len() as int) =~= s);
}

/// A generated name `column_N`, for `N` from one on, becomes `_c` followed by
/// the digits of `N - 1`.
pub proof fn lemma_generated_name_renamed(n: nat)
    requires
        1 <= n <= usize::MAX,
    ensures
        renamed_column(seq!['c', 'o', 'l', 'u', 'm', 'n', '_'] + digits_of(n)) == Some(
            seq!['_', 'c'] + digits_of((n - 1) as nat),
        ),
{
    let name = seq!['c', 'o', 'l', 'u', 'm', 'n', '_'] + digits_of(n);
    lemma_digits_parse(n);
    assert(name.take(7) =~= generated_prefix());
    assert(name.skip(7) =~= digits_of(n));
    lemma_trim_digits(digits_of(n));
    assert(digits_of(n)[0] != '+');
}

/// The generated names `column_1`, ..., `column_k` of a CSV file without a
/// header are renamed to the positional names `_c0`, ..., `_c(k - 1)`.
pub proof fn lemma_generated_names_become_positional(k: nat)
    requires
        k <= usize::MAX,
    ensures
        csv_column_names(generated_names(k)) == Seq::new(
            k,
            |j: int| seq!['_', 'c'] + digits_of(j as nat),
        ),
{
    let names = generated_names(k);
    assert forall|j: int| 0 <= j < k implies #[trigger] renamed_column(names[j]) == Some(
        seq!['_', 'c'] + digits_of(j as nat),
    ) by {
        lemma_generated_name_renamed((j + 1) as nat);
    }
    assert(all_renamed(names));
    assert(renamed_columns(names) =~= positional_names(k));
    assert(positional_names(k) =~= Seq::new(k, |j: int| seq!['_', 'c'] + digits_of(j as nat)));
}

/// Different positions have different positional names.
pub proof fn lemma_positional_name_injective(i: nat, j: nat)
    requires
        positional_name(i) == positional_name(j),
    ensures
        i == j,
{
    assert(positional_name(i).skip(2) =~= digits_of(i));
    assert(positional_name(j).skip(2) =~= digits_of(j));
    lemma_digits_injective(i, j);
}

/// Renaming the columns of a CSV file keeps their number.
pub proof fn lemma_csv_names_len(names: Seq<Seq<char>>)
    ensures
        csv_column_names(names).len() == names.len(),
{
}

/// The columns of a CSV file always get pairwise distinct names.
pub proof fn lemma_csv_names_distinct(names: Seq<Seq<char>>)
    ensures
        no_duplicates(csv_column_names(names)),
{
    if !(all_renamed(names) && no_duplicates(renamed_columns(names))) {
        let p = positional_names(names.len());
        assert forall|i: int, j: int| 0 <= i < j < p.len() implies p[i] != p[j] by {
            if p[i] == p[j] {
                lemma_positional_name_injective(i as nat, j as nat);
            }
        }
    }
}

/// No name that renaming gives looks generated.
pub proof fn lemma_csv_names_not_generated(names: Seq<Seq<char>>, i: int)
    requires
        0 <= i < names.len(),
    ensures
        !is_generated_name(csv_column_names(names)[i]),
{
    let r = csv_column_names(names);
    if all_renamed(names) && no_duplicates(renamed_columns(names)) {
        assert(renamed_column(names[i]) is Some);
        assert(r[i] == renamed_column(names[i]).unwrap());
        if is_generated_name(names[i]) {
            let n = parse_usize(trim(names[i].skip(7))).unwrap();
            let m: nat = if n > 0 {
                (n - 1) as nat
            } else {
                0
            };
            assert(r[i] == positional_name(m));
            assert(r[i][0] == '_');
            assert(r[i].len() >= 7 ==> r[i].take(7)[0] == '_');
        }
    } else {
        assert(r[i][0] == '_');
        assert(r[i].len() >= 7 ==> r[i].take(7)[0] == '_');
    }
}

/// Renaming the columns of a CSV file a second time changes nothing.
pub proof fn lemma_csv_names_idempotent(names: Seq<Seq<char>>)
    ensures
        csv_column_names(csv_column_names(names)) == csv_column_names(names),
{
    let r = csv_column_names(names);
    lemma_csv_names_distinct(names);
    assert forall|i: int| 0 <= i < r.len() implies #[trigger] renamed_column(r[i]) == Some(r[i]) by {
        lemma_csv_names_not_generated(names, i);
    }
    assert(all_renamed(r));
    assert(renamed_columns(r) =~= r);
}

/// The text that `str::to_lowercase` gives for `s`.
pub uninterp spec fn lowercase(s: Seq<char>) -> Seq<char>;

/// std's `str::to_lowercase`: the Unicode lowercase mapping of each
/// character. Its result is named by `lowercase`; nothing more of it is stated.
#[verifier::external_body]
fn to_lowercase(s: &str) -> (r: String)
    ensures
        r@ == lowercase(s@),
{
    s.to_lowercase()
}

/// Whether `t` is `.csv` or `csv`.
pub open spec fn is_csv_text(t: Seq<char>) -> bool {
    t == seq!['.', 'c', 's', 'v'] || t == seq!['c', 's', 'v']
}

/// Whether `s` and `t` hold the same characters.
fn same_text(s: &str, t: &str) -> (r: bool)
    ensures
        r == (s@ == t@),
{
    let n = s.unicode_len();
    if n != t.unicode_len() {
        return false;
    }
    let mut k: usize = 0;
    while k < n
        invariant
            n == s@.len(),
            n == t@.len(),
            k <= n,
            forall|j: int| 0 <= j < k ==> s@[j] == t@[j],
        decreases n - k,
    {
        if s.get_char(k) != t.get_char(k) {
            return false;
        }
        k += 1;
    }
    assert(s@ =~= t@);
    true
}

/// Whether an extension already in lowercase names CSV files: trimmed, it
/// is `.csv` or `csv`.
pub fn is_csv_lowercase_extension(lower: &str) -> (r: bool)
    ensures
        r == is_csv_text(trim(lower@)),
{
    let t = trim_str(lower);
    let dotted = ".csv";
    let plain = "csv";
    proof {
        reveal_strlit(".csv");
        reveal_strlit("csv");
        assert(dotted@ =~= seq!['.', 'c', 's', 'v']);
        assert(plain@ =~= seq!['c', 's', 'v']);
    }
    same_text(t, dotted) || same_text(t, plain)
}

/// Whether a file extension names CSV files: lowercased and trimmed, it is
/// `.csv` or `csv`.
pub fn is_csv_extension(ext: &str) -> (r: bool)
    ensures
        r == is_csv_text(trim(lowercase(ext@))),
{
    let lower = to_lowercase(ext);
    is_csv_lowercase_extension(lower.as_str())
}

/// The items joined, with `sep` between each two.
pub open spec fn join(items: Seq<Seq<char>>, sep: Seq<char>) -> Seq<char>
    decreases items.len(),
{
    if items.len() == 0 {
        seq![]
    } else if items.len() == 1 {
        items[0]
    } else {
        join(items.drop_last(), sep) + sep + items.last()
    }
}

/// The message of a listing whose paths hold no file.
pub open spec fn no_files_message(urls: Seq<Seq<char>>) -> Seq<char> {
    "No files found in the specified paths: "@ + join(urls, seq![',', ' '])
}

/// Refuses a listing in which no path holds a file: `file_counts[i]` is the
/// number of files found under `urls[i]`.
pub fn check_files_found(urls: &Vec<String>, file_counts: &Vec<usize>) -> (r: Result<(), String>)
    ensures
        match r {
            Ok(()) => exists|i: int| 0 <= i < file_counts.len() && #[trigger] file_counts@[i] > 0,
            Err(m) => (forall|i: int| 0 <= i < file_counts.len() ==> #[trigger] file_counts@[i]
                == 0) && m@ == no_files_message(texts(urls@)),
        },
{
    let mut k: usize = 0;
    while k < file_counts.len()
        invariant
            k <= file_counts.len(),
            forall|i: int| 0 <= i < k ==> #[trigger] file_counts@[i] == 0,
        decreases file_counts.len() - k,
    {
        if file_counts[k] > 0 {
            return Ok(());
        }
        k += 1;
    }
    let mut m = String::from_str("No files found in the specified paths: ");
    let ghost head = m@;
    let n = urls.len();
    let mut j: usize = 0;
    proof {
        reveal_strlit(", ");
    }
    while j < n
        invariant
            n == urls.len(),
            j <= n,
            m@ == head + join(texts(urls@).take(j as int), seq![',', ' ']),
        decreases n - j,
    {
        proof {
            reveal_strlit(", ");
        }
        let ghost items = texts(urls@).take(j + 1);
        assert(items.drop_last() =~= texts(urls@).take(j as int));
        if j > 0 {
            m.append(", ");
        }
        m.append(urls[j].as_str());
        assert(m@ =~= head + join(items, seq![',', ' ']));
        j += 1;
    }
    assert(texts(urls@).take(n as int) =~= texts(urls@));
    Err(m)
}

/// The declared schema of a listing, where it has fields: a schema without
/// fields counts as none.
pub fn declared_schema<T>(schema: Option<Vec<T>>) -> (r: Option<Vec<T>>)
    ensures
        r == match schema {
            Some(fields) => if fields.len() == 0 {
                None
            } else {
                Some(fields)
            },
            None => None,
        },
{
    match schema {
        Some(fields) => if fields.len() == 0 {
            None
        } else {
            Some(fields)
        },
        None => None,
    }
}

} // verus!
