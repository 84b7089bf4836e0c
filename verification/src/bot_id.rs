//! Globally unique, stable bot identifiers.
//!
//! A [`BotId`] is built from a provider-local id and the provider itself, and
//! is encoded as one string `"<len(local)>;<local>@<provider>"`. The decimal
//! length prefix is what actually separates the components, so the local id
//! may itself contain `;` or `@` without ambiguity.

use vstd::arithmetic::div_mod::lemma_fundamental_div_mod;
use vstd::prelude::*;
use vstd::string::StringSliceAdditionalSpecFns;
use vstd::utf8::{char_is_scalar, encode_scalar, encode_utf8};

verus! {

/// The characters `'0'` through `'9'`, by value.
pub open spec fn digit_char(d: int) -> char {
    if d == 0 {
        '0'
    } else if d == 1 {
        '1'
    } else if d == 2 {
        '2'
    } else if d == 3 {
        '3'
    } else if d == 4 {
        '4'
    } else if d == 5 {
        '5'
    } else if d == 6 {
        '6'
    } else if d == 7 {
        '7'
    } else if d == 8 {
        '8'
    } else {
        '9'
    }
}

/// The value of a decimal digit character, or `10` for any other character.
pub open spec fn digit_val(c: char) -> int {
    if c == '0' {
        0
    } else if c == '1' {
        1
    } else if c == '2' {
        2
    } else if c == '3' {
        3
    } else if c == '4' {
        4
    } else if c == '5' {
        5
    } else if c == '6' {
        6
    } else if c == '7' {
        7
    } else if c == '8' {
        8
    } else if c == '9' {
        9
    } else {
        10
    }
}

/// Whether `c` is a decimal digit.
pub open spec fn is_digit(c: char) -> bool {
    digit_val(c) < 10
}

/// Whether every character of `s` is a decimal digit.
pub open spec fn all_digits(s: Seq<char>) -> bool {
    forall|i: int| 0 <= i < s.len() ==> is_digit(#[trigger] s[i])
}

/// The canonical decimal notation of a non-negative number.
pub open spec fn decimal_digits(n: int) -> Seq<char>
    decreases n,
{
    if n < 10 {
        seq![digit_char(n)]
    } else {
        decimal_digits(n / 10).push(digit_char(n % 10))
    }
}

/// The number a string of decimal digits denotes.
pub open spec fn digits_value(s: Seq<char>) -> int
    decreases s.len(),
{
    if s.len() == 0 {
        0
    } else {
        digits_value(s.drop_last()) * 10 + digit_val(s.last())
    }
}

/// The length of a string's UTF-8 encoding, in bytes.
pub open spec fn utf8_len(s: Seq<char>) -> int {
    encode_utf8(s).len() as int
}

/// The byte length of a concatenation is the sum of the byte lengths.
proof fn lemma_utf8_len_add(a: Seq<char>, b: Seq<char>)
    ensures
        utf8_len(a + b) == utf8_len(a) + utf8_len(b),
    decreases a.len(),
{
    if a.len() == 0 {
        assert(a + b =~= b);
        assert(encode_utf8(a).len() == 0);
    } else {
        assert((a + b)[0] == a[0]);
        assert((a + b).drop_first() =~= a.drop_first() + b);
        lemma_utf8_len_add(a.drop_first(), b);
    }
}

/// Every character takes one to four bytes.
proof fn lemma_utf8_len_bounds(s: Seq<char>)
    ensures
        s.len() <= utf8_len(s) <= 4 * s.len(),
    decreases s.len(),
{
    if s.len() > 0 {
        lemma_utf8_len_bounds(s.drop_first());
        assert(1 <= encode_scalar(s[0] as u32).len() <= 4);
    }
}

/// The byte length of a middle piece splits off.
proof fn lemma_utf8_sub_split(s: Seq<char>, base: int, j1: int, j2: int)
    requires
        0 <= base <= j1 <= j2 <= s.len(),
    ensures
        utf8_len(s.subrange(base, j2)) == utf8_len(s.subrange(base, j1)) + utf8_len(
            s.subrange(j1, j2),
        ),
{
    assert(s.subrange(base, j2) =~= s.subrange(base, j1) + s.subrange(j1, j2));
    lemma_utf8_len_add(s.subrange(base, j1), s.subrange(j1, j2));
}

/// The number of bytes one character takes in UTF-8.
fn char_utf8_len(c: char) -> (r: usize)
    ensures
        r == encode_scalar(c as u32).len(),
        1 <= r <= 4,
{
    proof {
        char_is_scalar(c);
    }
    let v = c as u32;
    if v < 0x80 {
        1
    } else if v < 0x800 {
        2
    } else if v < 0x10000 {
        3
    } else {
        4
    }
}

/// The encoded form of a bot id: the decimal byte length of the local id's
/// UTF-8 encoding, `';'`, the local id itself, `'@'`, and the provider.
pub open spec fn encode_bot_id(local: Seq<char>, provider: Seq<char>) -> Seq<char> {
    decimal_digits(utf8_len(local)) + seq![';'] + local + seq!['@'] + provider
}

/// The decimal notation of `n >= 0` is a non-empty digit string denoting `n`,
/// without a leading zero unless it is `"0"` itself.
proof fn lemma_decimal_digits(n: int)
    requires
        n >= 0,
    ensures
        decimal_digits(n).len() >= 1,
        all_digits(decimal_digits(n)),
        digits_value(decimal_digits(n)) == n,
        n >= 1 ==> decimal_digits(n)[0] != '0',
    decreases n,
{
    if n < 10 {
        assert(decimal_digits(n) =~= seq![digit_char(n)]);
        assert(decimal_digits(n).drop_last() =~= Seq::<char>::empty());
        assert(digits_value(Seq::<char>::empty()) == 0);
        assert(digit_val(digit_char(n)) == n);
    } else {
        lemma_decimal_digits(n / 10);
        lemma_fundamental_div_mod(n, 10);
        let prev = decimal_digits(n / 10);
        let whole = prev.push(digit_char(n % 10));
        assert(whole.drop_last() =~= prev);
        assert(whole.last() == digit_char(n % 10));
        assert(digit_val(digit_char(n % 10)) == n % 10);
        assert(forall|i: int| 0 <= i < whole.len() ==> is_digit(#[trigger] whole[i])) by {
            assert(forall|i: int| 0 <= i < prev.len() ==> whole[i] == #[trigger] prev[i]);
        }
    }
}

/// A non-empty digit string without a leading zero (unless of length one) is
/// the canonical decimal notation of its value, and that value is within the
/// bounds its length dictates.
proof fn lemma_digits_canonical(s: Seq<char>)
    requires
        s.len() >= 1,
        all_digits(s),
        s.len() == 1 || s[0] != '0',
    ensures
        digits_value(s) >= 0,
        s[0] != '0' ==> digits_value(s) >= 1,
        decimal_digits(digits_value(s)) == s,
    decreases s.len(),
{
    let v = digits_value(s);
    if s.len() == 1 {
        assert(s.drop_last() =~= Seq::<char>::empty());
        assert(digits_value(Seq::<char>::empty()) == 0);
        assert(v == digit_val(s[0]));
        assert(decimal_digits(v) =~= seq![digit_char(v)]);
        assert(seq![digit_char(v)] =~= s);
    } else {
        let prefix = s.drop_last();
        assert(prefix[0] == s[0]);
        assert(all_digits(prefix)) by {
            assert(forall|i: int| 0 <= i < prefix.len() ==> prefix[i] == #[trigger] s[i]);
        }
        lemma_digits_canonical(prefix);
        let pv = digits_value(prefix);
        assert(v == pv * 10 + digit_val(s.last()));
        assert(pv >= 1);
        assert(v >= 10) by (nonlinear_arith)
            requires
                pv >= 1,
                digit_val(s.last()) >= 0,
                v == pv * 10 + digit_val(s.last()),
        ;
        assert(v / 10 == pv && v % 10 == digit_val(s.last())) by (nonlinear_arith)
            requires
                0 <= digit_val(s.last()) < 10,
                pv >= 0,
                v == pv * 10 + digit_val(s.last()),
        ;
        assert(digit_char(digit_val(s.last())) == s.last());
        assert(decimal_digits(v) == decimal_digits(pv).push(s.last()));
        assert(decimal_digits(pv).push(s.last()) =~= s);
    }
}

/// Every digit string denotes at least the value any of its prefixes denotes.
proof fn lemma_digits_value_prefix(s: Seq<char>, k: int)
    requires
        0 <= k <= s.len(),
        all_digits(s),
    ensures
        0 <= digits_value(s.take(k)) <= digits_value(s),
    decreases s.len() - k,
{
    if k == s.len() {
        assert(s.take(k) =~= s);
        lemma_digits_value_nonneg(s);
    } else {
        lemma_digits_value_prefix(s, k + 1);
        let longer = s.take(k + 1);
        assert(longer.drop_last() =~= s.take(k));
        assert(all_digits(longer)) by {
            assert(forall|i: int| 0 <= i < longer.len() ==> longer[i] == #[trigger] s[i]);
        }
        lemma_digits_value_nonneg(s.take(k));
        assert(digits_value(longer) == digits_value(s.take(k)) * 10 + digit_val(longer.last()));
        assert(digits_value(s.take(k)) <= digits_value(longer)) by (nonlinear_arith)
            requires
                digits_value(s.take(k)) >= 0,
                digit_val(longer.last()) >= 0,
                digits_value(longer) == digits_value(s.take(k)) * 10 + digit_val(longer.last()),
        ;
    }
}

/// A digit string never denotes a negative number.
proof fn lemma_digits_value_nonneg(s: Seq<char>)
    requires
        all_digits(s),
    ensures
        digits_value(s) >= 0,
    decreases s.len(),
{
    if s.len() > 0 {
        assert(all_digits(s.drop_last())) by {
            assert(forall|i: int| 0 <= i < s.len() - 1 ==> s.drop_last()[i] == #[trigger] s[i]);
        }
        lemma_digits_value_nonneg(s.drop_last());
        assert(digit_val(s.last()) >= 0);
        assert(digits_value(s.drop_last()) * 10 >= 0) by (nonlinear_arith)
            requires
                digits_value(s.drop_last()) >= 0,
        ;
    }
}

/// Facts every encoded bot id satisfies, keyed on the digit prefix.
proof fn lemma_encoding_shape(local: Seq<char>, provider: Seq<char>)
    ensures
        ({
            let e = encode_bot_id(local, provider);
            let d = decimal_digits(utf8_len(local)).len() as int;
            &&& e.len() == d + 2 + local.len() + provider.len()
            &&& d >= 1
            &&& all_digits(e.take(d))
            &&& digits_value(e.take(d)) == utf8_len(local)
            &&& (d > 1 ==> e[0] != '0')
            &&& e[d] == ';'
            &&& (forall|m: int| 0 <= m < d ==> e[m] != ';')
            &&& e.subrange(d + 1, d + 1 + local.len()) == local
            &&& e[d + 1 + local.len()] == '@'
            &&& e.subrange(d + 2 + local.len(), e.len() as int) == provider
        }),
{
    let digits = decimal_digits(utf8_len(local));
    let d = digits.len() as int;
    let e = encode_bot_id(local, provider);
    lemma_utf8_len_bounds(local);
    lemma_decimal_digits(utf8_len(local));
    assert(e.take(d) =~= digits);
    assert(e.subrange(d + 1, d + 1 + local.len()) =~= local);
    assert(e.subrange(d + 2 + local.len(), e.len() as int) =~= provider);
    assert(forall|m: int| 0 <= m < d ==> is_digit(#[trigger] e[m]));
    if utf8_len(local) >= 1 {
        assert(digits[0] != '0');
    } else {
        assert(digits =~= seq![digit_char(0)]);
    }
}

/// When `s` is a valid encoding and `d` is the position of the first `';'`
/// in it (or the length of `s` if there is none), `d` in fact marks the end
/// of the digit prefix, and every structural fact about the encoding follows.
proof fn lemma_decode_unique(s: Seq<char>, d: int, local: Seq<char>, provider: Seq<char>)
    requires
        s == encode_bot_id(local, provider),
        0 <= d <= s.len(),
        forall|m: int| 0 <= m < d ==> s[m] != ';',
        d == s.len() || s[d] == ';',
    ensures
        1 <= d < s.len(),
        s[d] == ';',
        all_digits(s.take(d)),
        digits_value(s.take(d)) == utf8_len(local),
        d > 1 ==> s[0] != '0',
        s.len() == d + 2 + local.len() + provider.len(),
        s.subrange(d + 1, d + 1 + local.len()) == local,
        s[d + 1 + local.len()] == '@',
        s.subrange(d + 2 + local.len(), s.len() as int) == provider,
{
    lemma_encoding_shape(local, provider);
    let e = encode_bot_id(local, provider);
    let dd = decimal_digits(utf8_len(local)).len() as int;
    assert(dd < s.len());
    if d < dd {
        assert(is_digit(e.take(dd)[d]));
        assert(s[d] == ';');
        assert(false);
    }
    if d > dd {
        assert(s[dd] != ';');
        assert(e[dd] == ';');
        assert(false);
    }
    assert(d == dd);
    assert(s.take(d) == e.take(dd));
    if d > 1 {
        assert(e[0] != '0');
    }
}

/// The encoding is injective: equal encoded strings come from equal
/// component pairs, which is why bot ids may be compared by their encoded
/// strings alone.
pub proof fn lemma_encode_injective(
    local1: Seq<char>,
    provider1: Seq<char>,
    local2: Seq<char>,
    provider2: Seq<char>,
)
    requires
        encode_bot_id(local1, provider1) == encode_bot_id(local2, provider2),
    ensures
        local1 == local2,
        provider1 == provider2,
{
    let e = encode_bot_id(local1, provider1);
    let d1 = decimal_digits(utf8_len(local1)).len() as int;
    let d2 = decimal_digits(utf8_len(local2)).len() as int;
    lemma_encoding_shape(local1, provider1);
    lemma_encoding_shape(local2, provider2);
    assert(d1 == d2) by {
        if d1 < d2 {
            assert(e[d1] == ';');
            assert(e[d1] != ';');
        }
        if d2 < d1 {
            assert(e[d2] == ';');
            assert(e[d2] != ';');
        }
    }
    assert(e.take(d1) == e.take(d2));
    assert(utf8_len(local1) == utf8_len(local2));
    assert(local1.len() == local2.len()) by {
        if local1.len() < local2.len() {
            assert(local1 == e.subrange(d1 + 1, d1 + 1 + local1.len()));
            assert(local2 == e.subrange(d1 + 1, d1 + 1 + local2.len()));
            assert(local2 =~= local1 + local2.skip(local1.len() as int));
            lemma_utf8_len_add(local1, local2.skip(local1.len() as int));
            lemma_utf8_len_bounds(local2.skip(local1.len() as int));
        }
        if local2.len() < local1.len() {
            assert(local1 == e.subrange(d1 + 1, d1 + 1 + local1.len()));
            assert(local2 == e.subrange(d1 + 1, d1 + 1 + local2.len()));
            assert(local1 =~= local2 + local1.skip(local2.len() as int));
            lemma_utf8_len_add(local2, local1.skip(local2.len() as int));
            lemma_utf8_len_bounds(local1.skip(local2.len() as int));
        }
    }
    assert(local1 == e.subrange(d1 + 1, d1 + 1 + local1.len()));
    assert(provider1 == e.subrange(d1 + 2 + local1.len(), e.len() as int));
}

/// The components a [`BotId`] was built from.
pub ghost struct BotIdView {
    pub local: Seq<char>,
    pub provider: Seq<char>,
}

/// Identifies any kind of bot, local or remote, model or agent.
///
/// It is globally unique and stable: it pairs the id a provider knows a bot
/// by with the provider itself, and is carried around (and serialized) as the
/// single encoded string described at [`encode_bot_id`].
#[derive(Debug, Hash)]
pub struct BotId {
    local: String,
    provider: String,
    encoded: String,
}

impl View for BotId {
    type V = BotIdView;

    closed spec fn view(&self) -> BotIdView {
        BotIdView { local: self.local@, provider: self.provider@ }
    }
}

impl BotId {
    /// The encoded string agrees with the stored components.
    #[verifier::type_invariant]
    spec fn wf(self) -> bool {
        self.encoded@ == encode_bot_id(self.local@, self.provider@)
    }

    /// The whole encoded id, in the form described at [`encode_bot_id`].
    pub fn as_str(&self) -> (r: &str)
        ensures
            r@ == encode_bot_id(self@.local, self@.provider),
    {
        proof {
            use_type_invariant(self);
        }
        self.encoded.as_str()
    }

    /// Creates a new bot id from a provider-local id and a provider domain or
    /// url.
    pub fn new(id: &str, provider: &str) -> (r: Self)
        ensures
            r@.local == id@,
            r@.provider == provider@,
    {
        let count = id.as_bytes().len();
        proof {
            assert(id.spec_bytes() == encode_utf8(id@));
            assert(count as int == utf8_len(id@));
        }
        let mut encoded = String::new();
        push_decimal(&mut encoded, count);
        proof {
            reveal_strlit(";");
            reveal_strlit("@");
            assert(";"@ =~= seq![';']);
            assert("@"@ =~= seq!['@']);
        }
        encoded.append(";");
        encoded.append(id);
        encoded.append("@");
        encoded.append(provider);
        proof {
            assert(encoded@ =~= encode_bot_id(id@, provider@));
        }
        BotId { local: id.to_owned(), provider: provider.to_owned(), encoded }
    }

    /// The id of the bot as it is known by its provider.
    ///
    /// This may not be globally unique.
    pub fn id(&self) -> (r: &str)
        ensures
            r@ == self@.local,
    {
        self.local.as_str()
    }

    /// The provider component of this bot id.
    pub fn provider(&self) -> (r: &str)
        ensures
            r@ == self@.provider,
    {
        self.provider.as_str()
    }

    /// Parses an encoded bot id back into its components, accepting exactly
    /// the strings that [`BotId::as_str`] can produce.
    pub fn from_encoded(s: &str) -> (r: Option<BotId>)
        ensures
            match r {
                Some(b) => s@ == encode_bot_id(b@.local, b@.provider),
                None => forall|local: Seq<char>, provider: Seq<char>|
                    s@ != encode_bot_id(local, provider),
            },
    {
        let len = s.unicode_len();
        // Find the first ';', which ends the decimal length prefix.
        let mut d: usize = 0;
        loop
            invariant_except_break
                d <= len,
                len == s@.len(),
                forall|m: int| 0 <= m < d ==> s@[m] != ';',
            ensures
                d < len,
                len == s@.len(),
                s@[d as int] == ';',
                forall|m: int| 0 <= m < d ==> s@[m] != ';',
            decreases len - d,
        {
            if d == len {
                proof {
                    assert forall|local: Seq<char>, provider: Seq<char>|
                        s@ != encode_bot_id(local, provider) by {
                        if s@ == encode_bot_id(local, provider) {
                            lemma_decode_unique(s@, d as int, local, provider);
                        }
                    }
                }
                return None;
            }
            if s.get_char(d) == ';' {
                break;
            }
            d = d + 1;
        }
        // The digit prefix must be non-empty, all digits, and free of a
        // leading zero unless it is exactly "0".
        if d == 0 {
            proof {
                assert forall|local: Seq<char>, provider: Seq<char>|
                    s@ != encode_bot_id(local, provider) by {
                    if s@ == encode_bot_id(local, provider) {
                        lemma_decode_unique(s@, d as int, local, provider);
                    }
                }
            }
            return None;
        }
        let mut value: u128 = 0;
        let mut j: usize = 0;
        while j < d
            invariant
                j <= d,
                0 < d < len,
                len == s@.len(),
                s@[d as int] == ';',
                forall|m: int| 0 <= m < d ==> s@[m] != ';',
                forall|m: int| 0 <= m < j ==> is_digit(#[trigger] s@[m]),
                value == digits_value(s@.take(j as int)),
                value <= 4 * (len as u128),
            decreases d - j,
        {
            let c = s.get_char(j);
            let dv = digit_of(c);
            if dv == 10 {
                proof {
                    assert forall|local: Seq<char>, provider: Seq<char>|
                        s@ != encode_bot_id(local, provider) by {
                        if s@ == encode_bot_id(local, provider) {
                            lemma_decode_unique(s@, d as int, local, provider);
                            assert(is_digit(s@.take(d as int)[j as int]));
                        }
                    }
                }
                return None;
            }
            proof {
                assert(s@.take(j + 1).drop_last() =~= s@.take(j as int));
                assert(s@.take(j + 1).last() == s@[j as int]);
            }
            value = value * 10 + (dv as u128);
            j = j + 1;
            if value > 4 * (len as u128) {
                proof {
                    assert forall|local: Seq<char>, provider: Seq<char>|
                        s@ != encode_bot_id(local, provider) by {
                        if s@ == encode_bot_id(local, provider) {
                            lemma_decode_unique(s@, d as int, local, provider);
                            lemma_digits_value_prefix(s@.take(d as int), j as int);
                            assert(s@.take(d as int).take(j as int) =~= s@.take(j as int));
                            lemma_utf8_len_bounds(local);
                        }
                    }
                }
                return None;
            }
        }
        proof {
            assert(s@.take(d as int).take(d as int) =~= s@.take(d as int));
        }
        let c0 = s.get_char(0);
        if d > 1 && c0 == '0' {
            proof {
                assert forall|local: Seq<char>, provider: Seq<char>|
                    s@ != encode_bot_id(local, provider) by {
                    if s@ == encode_bot_id(local, provider) {
                        lemma_decode_unique(s@, d as int, local, provider);
                    }
                }
            }
            return None;
        }
        // Walk the characters after the separator until their encoded byte
        // length reaches the announced byte length of the local id.
        let mut j: usize = d + 1;
        let mut acc: u128 = 0;
        proof {
            assert(s@.subrange(d + 1, d + 1) =~= Seq::<char>::empty());
            assert(utf8_len(Seq::<char>::empty()) == 0);
        }
        while acc < value
            invariant
                0 < d < len,
                d + 1 <= j <= len,
                len == s@.len(),
                s@[d as int] == ';',
                forall|m: int| 0 <= m < d ==> s@[m] != ';',
                forall|m: int| 0 <= m < d ==> is_digit(#[trigger] s@[m]),
                d == 1 || s@[0] != '0',
                value as int == digits_value(s@.take(d as int)),
                acc as int == utf8_len(s@.subrange(d + 1, j as int)),
                acc <= 4 * (len as u128),
                j == d + 1 || utf8_len(s@.subrange(d + 1, j - 1)) < value as int,
            decreases len - j,
        {
            if j == len {
                proof {
                    assert forall|local: Seq<char>, provider: Seq<char>|
                        s@ != encode_bot_id(local, provider) by {
                        if s@ == encode_bot_id(local, provider) {
                            lemma_decode_unique(s@, d as int, local, provider);
                            let jj = d + 1 + local.len();
                            assert(s@.subrange(d + 1, jj) == local);
                            lemma_utf8_sub_split(s@, d + 1, jj, len as int);
                            lemma_utf8_len_bounds(s@.subrange(jj, len as int));
                        }
                    }
                }
                return None;
            }
            let c = s.get_char(j);
            let w = char_utf8_len(c);
            proof {
                lemma_utf8_sub_split(s@, d + 1, j as int, j + 1);
                assert(s@.subrange(j as int, j + 1) =~= seq![s@[j as int]]);
                assert(utf8_len(seq![s@[j as int]]) == encode_scalar(s@[j as int] as u32).len())
                    by {
                    assert(seq![s@[j as int]].drop_first() =~= Seq::<char>::empty());
                    assert(encode_utf8(Seq::<char>::empty()).len() == 0);
                }
                lemma_utf8_len_bounds(s@.subrange(d + 1, j + 1));
            }
            acc = acc + (w as u128);
            j = j + 1;
        }
        if acc != value {
            proof {
                assert forall|local: Seq<char>, provider: Seq<char>|
                    s@ != encode_bot_id(local, provider) by {
                    if s@ == encode_bot_id(local, provider) {
                        lemma_decode_unique(s@, d as int, local, provider);
                        let jj = d + 1 + local.len();
                        assert(s@.subrange(d + 1, jj) == local);
                        assert(utf8_len(s@.subrange(d + 1, jj)) == value as int);
                        assert(j > d + 1) by {
                            assert(s@.subrange(d + 1, d + 1) =~= Seq::<char>::empty());
                            assert(utf8_len(Seq::<char>::empty()) == 0);
                        }
                        if jj <= j - 1 {
                            lemma_utf8_sub_split(s@, d + 1, jj, j - 1);
                            lemma_utf8_len_bounds(s@.subrange(jj, j - 1));
                        } else {
                            lemma_utf8_sub_split(s@, d + 1, j as int, jj);
                            lemma_utf8_len_bounds(s@.subrange(j as int, jj));
                        }
                    }
                }
            }
            return None;
        }
        if j == len {
            proof {
                assert forall|local: Seq<char>, provider: Seq<char>|
                    s@ != encode_bot_id(local, provider) by {
                    if s@ == encode_bot_id(local, provider) {
                        lemma_decode_unique(s@, d as int, local, provider);
                        let jj = d + 1 + local.len();
                        assert(s@.subrange(d + 1, jj) == local);
                        assert(utf8_len(s@.subrange(d + 1, jj)) == value as int);
                        lemma_utf8_sub_split(s@, d + 1, jj, j as int);
                        lemma_utf8_len_bounds(s@.subrange(jj, j as int));
                    }
                }
            }
            return None;
        }
        if s.get_char(j) != '@' {
            proof {
                assert forall|local: Seq<char>, provider: Seq<char>|
                    s@ != encode_bot_id(local, provider) by {
                    if s@ == encode_bot_id(local, provider) {
                        lemma_decode_unique(s@, d as int, local, provider);
                        let jj = d + 1 + local.len();
                        assert(s@.subrange(d + 1, jj) == local);
                        assert(utf8_len(s@.subrange(d + 1, jj)) == value as int);
                        if j < jj {
                            lemma_utf8_sub_split(s@, d + 1, j as int, jj);
                            lemma_utf8_len_bounds(s@.subrange(j as int, jj));
                        }
                        if jj < j {
                            lemma_utf8_sub_split(s@, d + 1, jj, j as int);
                            lemma_utf8_len_bounds(s@.subrange(jj, j as int));
                        }
                        assert(j == jj);
                        assert(s@[jj] == '@');
                    }
                }
            }
            return None;
        }
        let local = s.substring_char(d + 1, j).to_owned();
        let provider = s.substring_char(j + 1, len).to_owned();
        let encoded = s.to_owned();
        proof {
            lemma_digits_canonical(s@.take(d as int));
            assert(utf8_len(local@) == value as int);
            assert(decimal_digits(utf8_len(local@)) == s@.take(d as int));
            assert(s@ =~= encode_bot_id(local@, provider@));
        }
        Some(BotId { local, provider, encoded })
    }
}

impl PartialEq for BotId {
    /// Two bot ids are equal exactly when their encoded strings are equal,
    /// which by injectivity of the encoding means equal components.
    fn eq(&self, other: &Self) -> (r: bool) {
        proof {
            use_type_invariant(self);
            use_type_invariant(other);
        }
        let r = self.encoded.eq(&other.encoded);
        proof {
            if self.encoded@ == other.encoded@ {
                lemma_encode_injective(self@.local, self@.provider, other@.local, other@.provider);
            }
        }
        r
    }
}

impl vstd::std_specs::cmp::PartialEqSpecImpl for BotId {
    open spec fn obeys_eq_spec() -> bool {
        true
    }

    open spec fn eq_spec(&self, other: &Self) -> bool {
        self@.local == other@.local && self@.provider == other@.provider
    }
}

impl Eq for BotId {}

impl Clone for BotId {
    /// The clone carries the same components.
    fn clone(&self) -> (r: Self)
        ensures
            r@ == self@,
    {
        proof {
            use_type_invariant(self);
        }
        BotId {
            local: self.local.clone(),
            provider: self.provider.clone(),
            encoded: self.encoded.clone(),
        }
    }
}

/// Appends the decimal notation of `n` to `s`.
fn push_decimal(s: &mut String, n: usize)
    ensures
        final(s)@ == old(s)@ + decimal_digits(n as int),
    decreases n,
{
    if n >= 10 {
        push_decimal(s, n / 10);
        s.append(digit_str(n % 10));
        proof {
            assert(old(s)@ + decimal_digits((n / 10) as int) + seq![digit_char((n % 10) as int)]
                =~= old(s)@ + decimal_digits(n as int));
        }
    } else {
        s.append(digit_str(n));
        proof {
            assert(old(s)@ + seq![digit_char(n as int)] =~= old(s)@ + decimal_digits(n as int));
        }
    }
}

/// One decimal digit, as a string.
fn digit_str(d: usize) -> (r: &'static str)
    requires
        d < 10,
    ensures
        r@ == seq![digit_char(d as int)],
{
    proof {
        reveal_strlit("0");
        reveal_strlit("1");
        reveal_strlit("2");
        reveal_strlit("3");
        reveal_strlit("4");
        reveal_strlit("5");
        reveal_strlit("6");
        reveal_strlit("7");
        reveal_strlit("8");
        reveal_strlit("9");
        assert("0"@ =~= seq!['0']);
        assert("1"@ =~= seq!['1']);
        assert("2"@ =~= seq!['2']);
        assert("3"@ =~= seq!['3']);
        assert("4"@ =~= seq!['4']);
        assert("5"@ =~= seq!['5']);
        assert("6"@ =~= seq!['6']);
        assert("7"@ =~= seq!['7']);
        assert("8"@ =~= seq!['8']);
        assert("9"@ =~= seq!['9']);
    }
    match d {
        0 => "0",
        1 => "1",
        2 => "2",
        3 => "3",
        4 => "4",
        5 => "5",
        6 => "6",
        7 => "7",
        8 => "8",
        _ => "9",
    }
}

/// The value of one decimal digit character, or `10` for any other character.
fn digit_of(c: char) -> (r: usize)
    ensures
        r == digit_val(c),
{
    match c {
        '0' => 0,
        '1' => 1,
        '2' => 2,
        '3' => 3,
        '4' => 4,
        '5' => 5,
        '6' => 6,
        '7' => 7,
        '8' => 8,
        '9' => 9,
        _ => 10,
    }
}

} // verus!
