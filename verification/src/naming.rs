//! Conversion of identifiers between `snake_case` and `PascalCase`.
use vstd::prelude::*;

verus! {

/// The uppercase form of a character beyond ASCII, which may be more than one character.
pub uninterp spec fn wide_uppercase(c: char) -> Seq<char>;

/// The lowercase form of a character beyond ASCII, which may be more than one character.
pub uninterp spec fn wide_lowercase(c: char) -> Seq<char>;

/// A character beyond ASCII has the property Uppercase.
pub uninterp spec fn wide_is_upper(c: char) -> bool;

/// A character of ASCII.
pub open spec fn ascii(c: char) -> bool {
    (c as int) < 128
}

/// An uppercase letter of ASCII.
pub open spec fn upper_letter(c: char) -> bool {
    65 <= c as int <= 90
}

/// A lowercase letter of ASCII.
pub open spec fn lower_letter(c: char) -> bool {
    97 <= c as int <= 122
}

/// A digit of ASCII.
pub open spec fn digit(c: char) -> bool {
    48 <= c as int <= 57
}

/// The uppercase form of a character of ASCII.
pub open spec fn ascii_uppercase(c: char) -> Seq<char> {
    if lower_letter(c) {
        seq![(c as int - 32) as char]
    } else {
        seq![c]
    }
}

/// The lowercase form of a character of ASCII.
pub open spec fn ascii_lowercase(c: char) -> Seq<char> {
    if upper_letter(c) {
        seq![(c as int + 32) as char]
    } else {
        seq![c]
    }
}

/// The uppercase form of a character, which may be more than one character.
pub open spec fn uppercase(c: char) -> Seq<char> {
    if ascii(c) {
        ascii_uppercase(c)
    } else {
        wide_uppercase(c)
    }
}

/// The lowercase form of a character, which may be more than one character.
pub open spec fn lowercase(c: char) -> Seq<char> {
    if ascii(c) {
        ascii_lowercase(c)
    } else {
        wide_lowercase(c)
    }
}

/// A character has the property Uppercase.
pub open spec fn is_upper(c: char) -> bool {
    if ascii(c) {
        upper_letter(c)
    } else {
        wide_is_upper(c)
    }
}

/// `char::to_uppercase`: in ASCII the capital of a small letter and every other character
/// itself, beyond it the mapping of the Unicode character database. No character but the
/// underscore has an underscore in its uppercase form.
#[verifier::external_body]
fn to_uppercase(c: char) -> (r: String)
    ensures
        r@ == (if ascii(c) {
            ascii_uppercase(c)
        } else {
            wide_uppercase(c)
        }),
        c != '_' ==> !r@.contains('_'),
{
    c.to_uppercase().to_string()
}

/// `char::to_lowercase`: in ASCII the small letter of a capital and every other character
/// itself, beyond it the mapping of the Unicode character database.
#[verifier::external_body]
fn to_lowercase(c: char) -> (r: String)
    ensures
        r@ == (if ascii(c) {
            ascii_lowercase(c)
        } else {
            wide_lowercase(c)
        }),
{
    c.to_lowercase().to_string()
}

/// `char::is_uppercase`: in ASCII the capitals, beyond it the property Uppercase.
#[verifier::external_body]
fn is_uppercase(c: char) -> (r: bool)
    ensures
        r == (if ascii(c) {
            upper_letter(c)
        } else {
            wide_is_upper(c)
        }),
{
    c.is_uppercase()
}

/// The characters of a `snake_case` text in `PascalCase`: underscores are dropped, and
/// the first character of every part is put in uppercase. `start` says whether the
/// text starts a part.
pub open spec fn pascal_case(s: Seq<char>, start: bool) -> Seq<char>
    decreases s.len(),
{
    if s.len() == 0 {
        seq![]
    } else if s[0] == '_' {
        pascal_case(s.drop_first(), true)
    } else if start {
        uppercase(s[0]) + pascal_case(s.drop_first(), false)
    } else {
        seq![s[0]] + pascal_case(s.drop_first(), false)
    }
}

proof fn lemma_without_underscore(a: Seq<char>, b: Seq<char>)
    requires
        !a.contains('_'),
        !b.contains('_'),
    ensures
        !(a + b).contains('_'),
{
    if (a + b).contains('_') {
        let i = choose|i: int| 0 <= i < (a + b).len() && (a + b)[i] == '_';
        if i < a.len() {
            assert(a[i] == '_');
        } else {
            assert(b[i - a.len()] == '_');
        }
    }
}

/// Convert a `snake_case` identifier to `PascalCase`. No underscore is left.
pub fn snake_to_pascal(s: &str) -> (r: String)
    ensures
        r@ == pascal_case(s@, true),
        !r@.contains('_'),
{
    let mut out = String::new();
    let mut start = true;
    let n = s.unicode_len();
    let mut i: usize = 0;
    proof {
        assert(s@.skip(0) =~= s@);
    }
    while i < n
        invariant
            i <= n,
            n == s@.len(),
            !out@.contains('_'),
            out@ + pascal_case(s@.skip(i as int), start) == pascal_case(s@, true),
        decreases n - i,
    {
        let c = s.get_char(i);
        let ghost rest = s@.skip(i as int);
        let ghost before = out@;
        proof {
            assert(rest[0] == c);
            assert(rest.drop_first() =~= s@.skip(i + 1));
        }
        if c == '_' {
            start = true;
        } else if start {
            let upper = to_uppercase(c);
            out.append(upper.as_str());
            start = false;
            proof {
                lemma_without_underscore(before, upper@);
                assert(before + (uppercase(c) + pascal_case(s@.skip(i + 1), false)) =~= (before
                    + uppercase(c)) + pascal_case(s@.skip(i + 1), false));
            }
        } else {
            out.append(s.substring_char(i, i + 1));
            proof {
                assert(s@.subrange(i as int, i + 1) =~= seq![c]);
                assert(out@ =~= before.push(c));
                lemma_without_underscore(before, seq![c]);
                assert(before + (seq![c] + pascal_case(s@.skip(i + 1), false)) =~= before.push(c)
                    + pascal_case(s@.skip(i + 1), false));
            }
        }
        i = i + 1;
    }
    proof {
        assert(s@.skip(i as int) =~= seq![]);
        assert(out@ + pascal_case(s@.skip(i as int), start) =~= out@);
    }
    out
}

/// The first `k` characters of a `PascalCase` text in `snake_case`: every uppercase
/// character is put in lowercase, with an underscore before it unless it is the first.
pub open spec fn snake_case(s: Seq<char>, k: nat) -> Seq<char>
    decreases k,
{
    if k == 0 || k > s.len() {
        seq![]
    } else {
        let p = snake_case(s, (k - 1) as nat);
        if is_upper(s[k - 1]) {
            (if k > 1 {
                p.push('_')
            } else {
                p
            }) + lowercase(s[k - 1])
        } else {
            p.push(s[k - 1])
        }
    }
}

/// Convert a `PascalCase` identifier to `snake_case`.
pub fn pascal_to_snake(s: &str) -> (r: String)
    ensures
        r@ == snake_case(s@, s@.len()),
{
    let mut out = String::new();
    let n = s.unicode_len();
    let mut i: usize = 0;
    while i < n
        invariant
            i <= n,
            n == s@.len(),
            out@ == snake_case(s@, i as nat),
        decreases n - i,
    {
        let c = s.get_char(i);
        if is_uppercase(c) {
            if i > 0 {
                proof {
                    reveal_strlit("_");
                    assert(out@ + "_"@ =~= out@.push('_'));
                }
                out.append("_");
            }
            let lower = to_lowercase(c);
            out.append(lower.as_str());
        } else {
            proof {
                assert(s@.subrange(i as int, i + 1) =~= seq![c]);
                assert(out@ + seq![c] =~= out@.push(c));
            }
            out.append(s.substring_char(i, i + 1));
        }
        i = i + 1;
    }
    out
}

/// The name of the struct of a task function.
pub open spec fn struct_name(fn_name: Seq<char>) -> Seq<char> {
    pascal_case(fn_name, true) + "Task"@
}

/// The name of the struct of a task function: `charge` has `ChargeTask`.
pub fn task_struct_name(fn_name: &str) -> (r: String)
    ensures
        r@ == struct_name(fn_name@),
{
    let mut s = snake_to_pascal(fn_name);
    s.append("Task");
    s
}

/// A text after another text starts a part: where the other ends with an underscore, or
/// is empty and at the start of a part itself.
pub open spec fn starts_part(before: Seq<char>, start: bool) -> bool {
    if before.len() == 0 {
        start
    } else {
        before.last() == '_'
    }
}

/// A text is put in `PascalCase` piece by piece.
pub proof fn law_pascal_of_pieces(a: Seq<char>, b: Seq<char>, start: bool)
    ensures
        pascal_case(a + b, start) == pascal_case(a, start) + pascal_case(b, starts_part(a, start)),
    decreases a.len(),
{
    if a.len() == 0 {
        assert(a + b =~= b);
        assert(pascal_case(a, start) + pascal_case(b, start) =~= pascal_case(b, start));
    } else {
        let rest = a.drop_first();
        let next = a[0] == '_';
        law_pascal_of_pieces(rest, b, next);
        assert((a + b).drop_first() =~= rest + b);
        assert(starts_part(rest, next) == starts_part(a, start));
        let end = pascal_case(b, starts_part(a, start));
        if a[0] == '_' {
        } else if start {
            assert(uppercase(a[0]) + (pascal_case(rest, false) + end) =~= (uppercase(a[0])
                + pascal_case(rest, false)) + end);
        } else {
            assert(seq![a[0]] + (pascal_case(rest, false) + end) =~= (seq![a[0]] + pascal_case(
                rest,
                false,
            )) + end);
        }
    }
}

/// Empty parts of a `snake_case` text are dropped: an underscore at the start or at the end
/// leaves no trace, and two in a row are as one.
pub proof fn law_empty_parts_are_dropped(a: Seq<char>, b: Seq<char>)
    ensures
        pascal_case(seq!['_'] + a, true) == pascal_case(a, true),
        pascal_case(a + seq!['_'], true) == pascal_case(a, true),
        pascal_case(a + seq!['_', '_'] + b, true) == pascal_case(a + seq!['_'] + b, true),
{
    let one = seq!['_'];
    let two = seq!['_', '_'];
    assert((one + a).drop_first() =~= a);
    law_pascal_of_pieces(a, one, true);
    law_pascal_of_pieces(a, two, true);
    assert(one.drop_first() =~= seq![]);
    assert(two.drop_first() =~= one);
    assert(pascal_case(one, starts_part(a, true)) =~= seq![]) by {
        assert(pascal_case(Seq::<char>::empty(), true) =~= seq![]);
    }
    assert(pascal_case(two, starts_part(a, true)) == pascal_case(one, true));
    assert(pascal_case(one, true) == pascal_case(Seq::<char>::empty(), true));
    assert(pascal_case(a, true) + Seq::<char>::empty() =~= pascal_case(a, true));
    law_pascal_of_pieces(a + one, b, true);
    law_pascal_of_pieces(a + two, b, true);
}

/// A text of ASCII letters and digits that is empty or starts with a capital.
pub open spec fn plain_pascal(s: Seq<char>) -> bool {
    &&& forall|i: int| #![trigger s[i]]
        0 <= i < s.len() ==> upper_letter(s[i]) || lower_letter(s[i]) || digit(s[i])
    &&& s.len() > 0 ==> upper_letter(s[0])
}

/// A text of lowercase ASCII letters, digits and underscores that is empty or starts with a
/// letter, does not end with an underscore, and has a letter after every underscore.
pub open spec fn plain_snake(s: Seq<char>) -> bool {
    &&& forall|i: int| #![trigger s[i]]
        0 <= i < s.len() ==> lower_letter(s[i]) || digit(s[i]) || s[i] == '_'
    &&& s.len() > 0 ==> lower_letter(s[0]) && s.last() != '_'
    &&& forall|i: int| #![trigger s[i]]
        0 < i < s.len() && s[i - 1] == '_' ==> lower_letter(s[i])
}

proof fn lemma_pascal_of_one(c: char, start: bool)
    requires
        c != '_',
    ensures
        pascal_case(seq![c], start) == (if start {
            uppercase(c)
        } else {
            seq![c]
        }),
{
    assert(seq![c].drop_first() =~= seq![]);
    assert(pascal_case(Seq::<char>::empty(), false) =~= seq![]);
    assert(uppercase(c) + seq![] =~= uppercase(c));
    assert(seq![c] + seq![] =~= seq![c]);
}

proof fn lemma_snake_of_prefix(s: Seq<char>, c: char, k: nat)
    requires
        k <= s.len(),
    ensures
        snake_case(s.push(c), k) == snake_case(s, k),
    decreases k,
{
    if k > 0 {
        lemma_snake_of_prefix(s, c, (k - 1) as nat);
        assert(s.push(c)[k - 1] == s[k - 1]);
    }
}

proof fn lemma_pascal_of_snake(s: Seq<char>, k: nat)
    requires
        plain_pascal(s),
        k <= s.len(),
    ensures
        pascal_case(snake_case(s, k), true) == s.take(k as int),
        k > 0 ==> snake_case(s, k).len() > 0 && snake_case(s, k).last() != '_',
    decreases k,
{
    if k == 0 {
        assert(pascal_case(Seq::<char>::empty(), true) =~= s.take(0));
    } else {
        let m = (k - 1) as nat;
        lemma_pascal_of_snake(s, m);
        let p = snake_case(s, m);
        let c = s[k - 1];
        assert(s.take(k as int) =~= s.take(m as int).push(c));
        assert(s.take(m as int).push(c) =~= s.take(m as int) + seq![c]);
        if upper_letter(c) {
            let l = (c as int + 32) as char;
            assert(lowercase(c) == seq![l]);
            assert(uppercase(l) =~= seq![c]);
            if k > 1 {
                let q = p.push('_');
                assert(q =~= p + seq!['_']);
                law_empty_parts_are_dropped(p, seq![]);
                law_pascal_of_pieces(q, seq![l], true);
            } else {
                law_pascal_of_pieces(p, seq![l], true);
            }
            lemma_pascal_of_one(l, true);
        } else {
            assert(k > 1);
            assert(p.push(c) =~= p + seq![c]);
            law_pascal_of_pieces(p, seq![c], true);
            lemma_pascal_of_one(c, false);
        }
    }
}

/// What was put in `snake_case` is found again in `PascalCase`, for a text of ASCII letters
/// and digits that is empty or starts with a capital.
pub proof fn law_pascal_round_trip(s: Seq<char>)
    requires
        plain_pascal(s),
    ensures
        pascal_case(snake_case(s, s.len()), true) == s,
{
    lemma_pascal_of_snake(s, s.len());
    assert(s.take(s.len() as int) =~= s);
}

proof fn lemma_snake_of_pascal(s: Seq<char>, k: nat)
    requires
        plain_snake(s),
        k <= s.len(),
    ensures
        ({
            let p = pascal_case(s.take(k as int), true);
            snake_case(p, p.len()) == (if k > 0 && s[k - 1] == '_' {
                s.take(k - 1)
            } else {
                s.take(k as int)
            })
        }),
    decreases k,
{
    if k == 0 {
        assert(s.take(0) =~= seq![]);
        assert(pascal_case(s.take(0), true) =~= seq![]);
    } else {
        let m = (k - 1) as nat;
        let a = s.take(m as int);
        let c = s[m as int];
        let p = pascal_case(a, true);
        lemma_snake_of_pascal(s, m);
        assert(s.take(k as int) =~= a + seq![c]);
        law_pascal_of_pieces(a, seq![c], true);
        if m > 0 {
            assert(a.last() == s[m - 1]);
        }
        if c == '_' {
            law_empty_parts_are_dropped(a, seq![]);
        } else {
            lemma_pascal_of_one(c, starts_part(a, true));
            let d = if starts_part(a, true) {
                (c as int - 32) as char
            } else {
                c
            };
            let q = p.push(d);
            assert(pascal_case(s.take(k as int), true) =~= q) by {
                assert(p + seq![d] =~= q);
            }
            lemma_snake_of_prefix(p, d, p.len());
            if starts_part(a, true) {
                assert(lower_letter(c));
                assert(lowercase(d) =~= seq![c]);
                if m == 0 {
                    assert(snake_case(q, q.len()) =~= s.take(1));
                } else {
                    assert(s[m - 1] == '_');
                    assert(m > 1);
                    assert(p.len() > 0);
                    assert(snake_case(q, q.len()) =~= s.take(m - 1).push('_') + seq![c]);
                    assert(s.take(m - 1).push('_') + seq![c] =~= s.take(k as int));
                }
            } else {
                assert(snake_case(q, q.len()) =~= a.push(c));
                assert(a.push(c) =~= s.take(k as int));
            }
        }
    }
}

/// What was put in `PascalCase` is found again in `snake_case`, for a plain `snake_case`
/// name.
pub proof fn law_snake_round_trip(s: Seq<char>)
    requires
        plain_snake(s),
    ensures
        snake_case(pascal_case(s, true), pascal_case(s, true).len()) == s,
{
    lemma_snake_of_pascal(s, s.len());
    assert(s.take(s.len() as int) =~= s);
}

} // verus!
