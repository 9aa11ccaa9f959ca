use vstd::prelude::*;

verus! {

/// Number of decimal places in one token: one token is 10^9 base units.
pub const TOKEN_DECIMALS: usize = 9;

pub open spec fn is_digit(c: char) -> bool {
    '0' <= c && c <= '9'
}

pub open spec fn all_digits(s: Seq<char>) -> bool {
    forall|i: int| 0 <= i < s.len() ==> is_digit(#[trigger] s[i])
}

pub open spec fn digit_value(c: char) -> nat {
    ((c as u32) - ('0' as u32)) as nat
}

/// The number that a string of decimal digits denotes (empty denotes zero).
pub open spec fn decimal_value(s: Seq<char>) -> nat
    decreases s.len(),
{
    if s.len() == 0 {
        0
    } else {
        decimal_value(s.drop_last()) * 10 + digit_value(s.last())
    }
}

pub open spec fn pow10(n: nat) -> nat
    decreases n,
{
    if n == 0 {
        1
    } else {
        10 * pow10((n - 1) as nat)
    }
}

pub open spec fn zeros(n: nat) -> Seq<char> {
    Seq::new(n, |i: int| '0')
}

/// `k` is the position of the decimal point of a token amount: digits before it,
/// at most nine digits after it.
pub open spec fn is_point_split(s: Seq<char>, k: int) -> bool {
    &&& 0 <= k < s.len()
    &&& s[k] == '.'
    &&& all_digits(s.subrange(0, k))
    &&& all_digits(s.subrange(k + 1, s.len() as int))
    &&& s.len() - k - 1 <= TOKEN_DECIMALS
}

/// The base-unit digits of a token amount written `int` or `int.frac`:
/// the fraction is padded with zeros to nine places.
pub open spec fn token_digits(s: Seq<char>) -> Option<Seq<char>> {
    if all_digits(s) {
        Some(s + zeros(TOKEN_DECIMALS as nat))
    } else if exists|k: int| is_point_split(s, k) {
        let k = choose|k: int| is_point_split(s, k);
        let frac = s.subrange(k + 1, s.len() as int);
        Some(s.subrange(0, k) + frac + zeros((TOKEN_DECIMALS - frac.len()) as nat))
    } else {
        None
    }
}

/// A token amount is accepted when it is well formed and its base-unit value fits in a u64.
pub open spec fn token_accepted(s: Seq<char>) -> bool {
    token_digits(s) is Some && decimal_value(token_digits(s).unwrap()) <= u64::MAX
}

/// Removes every occurrence of `c` at the start.
pub open spec fn strip_start(s: Seq<char>, c: char) -> Seq<char>
    decreases s.len(),
{
    if s.len() > 0 && s[0] == c {
        strip_start(s.drop_first(), c)
    } else {
        s
    }
}

/// Removes every occurrence of `c` at the end.
pub open spec fn strip_end(s: Seq<char>, c: char) -> Seq<char>
    decreases s.len(),
{
    if s.len() > 0 && s.last() == c {
        strip_end(s.drop_last(), c)
    } else {
        s
    }
}

/// An integer argument with the surrounding quotes removed.
pub open spec fn unquoted(s: Seq<char>) -> Seq<char> {
    strip_end(strip_start(s, '"'), '"')
}

/// An integer argument is a token amount when it ends with `T`.
pub open spec fn is_token_literal(s: Seq<char>) -> bool {
    s.len() > 0 && s.last() == 'T'
}

/// What an integer argument becomes: token amounts are rescaled to base units,
/// anything else is passed on unchanged.
pub open spec fn integer_param(s: Seq<char>) -> Option<Seq<char>> {
    let v = unquoted(s);
    if is_token_literal(v) {
        let amount = strip_end(v, 'T');
        if token_accepted(amount) {
            token_digits(amount)
        } else {
            None
        }
    } else {
        Some(v)
    }
}

pub proof fn lemma_decimal_value_concat(a: Seq<char>, b: Seq<char>)
    ensures
        decimal_value(a + b) == decimal_value(a) * pow10(b.len()) + decimal_value(b),
    decreases b.len(),
{
    if b.len() == 0 {
        assert(a + b =~= a);
        assert(pow10(0) == 1);
        assert(decimal_value(a) * 1 == decimal_value(a));
    } else {
        let ab = a + b;
        assert(ab.drop_last() =~= a + b.drop_last());
        assert(ab.last() == b.last());
        assert(decimal_value(ab) == decimal_value(ab.drop_last()) * 10 + digit_value(ab.last()));
        assert(decimal_value(b) == decimal_value(b.drop_last()) * 10 + digit_value(b.last()));
        lemma_decimal_value_concat(a, b.drop_last());
        let p = pow10(b.drop_last().len());
        assert(pow10(b.len()) == 10 * p);
        assert((decimal_value(a) * p + decimal_value(b.drop_last())) * 10 + digit_value(b.last())
            == decimal_value(a) * (10 * p) + (decimal_value(b.drop_last()) * 10 + digit_value(
            b.last()))) by (nonlinear_arith);
    }
}

pub proof fn lemma_zeros_value(n: nat)
    ensures
        decimal_value(zeros(n)) == 0,
    decreases n,
{
    if n > 0 {
        assert(zeros(n).drop_last() =~= zeros((n - 1) as nat));
        lemma_zeros_value((n - 1) as nat);
    }
}

proof fn lemma_prefix_value_grows(s: Seq<char>, i: int, j: int)
    requires
        0 <= i <= j <= s.len(),
    ensures
        decimal_value(s.subrange(0, i)) <= decimal_value(s.subrange(0, j)),
    decreases j - i,
{
    if i < j {
        lemma_prefix_value_grows(s, i, j - 1);
        assert(s.subrange(0, j).drop_last() =~= s.subrange(0, j - 1));
    }
}

proof fn lemma_point_split_unique(s: Seq<char>, k1: int, k2: int)
    requires
        is_point_split(s, k1),
        is_point_split(s, k2),
    ensures
        k1 == k2,
{
    if k1 < k2 {
        assert(s.subrange(0, k2)[k1] == s[k1]);
    } else if k2 < k1 {
        assert(s.subrange(0, k1)[k2] == s[k2]);
    }
}

/// Token amounts are rescaled exactly: the digits produced denote
/// `int * 10^9 + frac * 10^(9 - |frac|)`, with no rounding.
pub proof fn lemma_token_exact(s: Seq<char>, k: int)
    requires
        is_point_split(s, k),
    ensures
        token_digits(s) is Some,
        decimal_value(token_digits(s).unwrap()) == decimal_value(s.subrange(0, k)) * pow10(
            TOKEN_DECIMALS as nat,
        ) + decimal_value(s.subrange(k + 1, s.len() as int)) * pow10(
            (TOKEN_DECIMALS - (s.len() - k - 1)) as nat,
        ),
{
    assert(!all_digits(s)) by {
        assert(!is_digit(s[k]));
    }
    let c = choose|c: int| is_point_split(s, c);
    lemma_point_split_unique(s, c, k);
    let int_part = s.subrange(0, k);
    let frac = s.subrange(k + 1, s.len() as int);
    let z = zeros((TOKEN_DECIMALS - frac.len()) as nat);
    lemma_decimal_value_concat(int_part + frac, z);
    lemma_decimal_value_concat(int_part, frac);
    lemma_zeros_value((TOKEN_DECIMALS - frac.len()) as nat);
    lemma_pow10_add(frac.len(), (TOKEN_DECIMALS - frac.len()) as nat);
    let a = decimal_value(int_part);
    let f = decimal_value(frac);
    let p = pow10(frac.len());
    let q = pow10((TOKEN_DECIMALS - frac.len()) as nat);
    assert((a * p + f) * q == a * (p * q) + f * q) by (nonlinear_arith);
}

/// A whole token amount is its value times 10^9.
pub proof fn lemma_token_exact_whole(s: Seq<char>)
    requires
        all_digits(s),
    ensures
        token_digits(s) is Some,
        decimal_value(token_digits(s).unwrap()) == decimal_value(s) * pow10(
            TOKEN_DECIMALS as nat,
        ),
{
    lemma_decimal_value_concat(s, zeros(TOKEN_DECIMALS as nat));
    lemma_zeros_value(TOKEN_DECIMALS as nat);
}

/// The `T` suffix marks a token amount: an accepted amount followed by `T`
/// converts to exactly the amount's base-unit digits.
pub proof fn lemma_token_suffix(amount: Seq<char>)
    requires
        token_accepted(amount),
    ensures
        integer_param(amount.push('T')) == token_digits(amount),
{
    let s = amount.push('T');
    if amount.len() > 0 {
        assert(amount[0] != '"') by {
            if all_digits(amount) {
                assert(is_digit(amount[0]));
            } else {
                let k = choose|k: int| is_point_split(amount, k);
                if k > 0 {
                    assert(amount.subrange(0, k)[0] == amount[0]);
                }
            }
        }
        assert(amount.last() != 'T') by {
            let n = amount.len() - 1;
            if all_digits(amount) {
                assert(is_digit(amount[n]));
            } else {
                let k = choose|k: int| is_point_split(amount, k);
                if k < n {
                    assert(amount.subrange(k + 1, amount.len() as int)[n - k - 1] == amount[n]);
                }
            }
        }
        assert(s[0] == amount[0]);
    }
    assert(strip_start(s, '"') == s);
    assert(strip_end(s, '"') == s);
    assert(s.drop_last() =~= amount);
    assert(strip_end(amount, 'T') == amount);
    assert(strip_end(s, 'T') == amount);
}

pub proof fn lemma_pow10_add(a: nat, b: nat)
    ensures
        pow10(a + b) == pow10(a) * pow10(b),
    decreases a,
{
    if a > 0 {
        lemma_pow10_add((a - 1) as nat, b);
        assert(pow10(a + b) == 10 * pow10((a - 1 + b) as nat));
        let x = pow10((a - 1) as nat);
        let y = pow10(b);
        assert(pow10(a) == 10 * x);
        assert(10 * (x * y) == (10 * x) * y) by (nonlinear_arith);
    } else {
        assert(pow10(0) == 1);
        assert(a + b == b);
    }
}

pub(crate) fn is_digit_char(c: char) -> (r: bool)
    ensures
        r == is_digit(c),
{
    '0' <= c && c <= '9'
}

/// The value of a string of decimal digits, when it fits in a u64.
pub(crate) fn decimal_u64(s: &str) -> (r: Option<u64>)
    requires
        all_digits(s@),
    ensures
        r is Some <==> decimal_value(s@) <= u64::MAX,
        r matches Some(v) ==> v == decimal_value(s@),
{
    let n = s.unicode_len();
    let mut v: u64 = 0;
    let mut i: usize = 0;
    while i < n
        invariant
            n == s@.len(),
            all_digits(s@),
            i <= n,
            v == decimal_value(s@.subrange(0, i as int)),
        decreases n - i,
    {
        let c = s.get_char(i);
        assert(is_digit(s@[i as int]));
        let d = ((c as u32) - ('0' as u32)) as u64;
        assert(s@.subrange(0, i + 1).drop_last() =~= s@.subrange(0, i as int));
        if v > (u64::MAX - d) / 10 {
            proof {
                lemma_prefix_value_grows(s@, i + 1, n as int);
                assert(s@.subrange(0, n as int) =~= s@);
            }
            return None;
        }
        v = v * 10 + d;
        i = i + 1;
    }
    assert(s@.subrange(0, n as int) =~= s@);
    Some(v)
}

/// Rescales a token amount (`12`, `0.5`, `3.000000001`) to base units:
/// the result is the decimal digits of the amount times 10^9.
pub fn convert_token(amount: &str) -> (r: Result<String, String>)
    ensures
        r is Ok <==> token_accepted(amount@),
        r matches Ok(d) ==> Some(d@) == token_digits(amount@),
{
    let n = amount.unicode_len();
    let mut k: usize = 0;
    while k < n && is_digit_char(amount.get_char(k))
        invariant
            n == amount@.len(),
            k <= n,
            all_digits(amount@.subrange(0, k as int)),
        decreases n - k,
    {
        assert(amount@.subrange(0, k + 1) =~= amount@.subrange(0, k as int).push(amount@[k as int]));
        k = k + 1;
    }
    let mut digits = String::from_str(amount.substring_char(0, k));
    let frac_len: usize;
    if k == n {
        assert(amount@.subrange(0, n as int) =~= amount@);
        frac_len = 0;
    } else {
        if amount.get_char(k) != '.' {
            proof {
                assert(!all_digits(amount@)) by {
                    assert(!is_digit(amount@[k as int]));
                }
                if exists|c: int| is_point_split(amount@, c) {
                    let c = choose|c: int| is_point_split(amount@, c);
                    if c < k {
                        assert(amount@.subrange(0, k as int)[c] == amount@[c]);
                    } else {
                        assert(amount@.subrange(0, c)[k as int] == amount@[k as int]);
                    }
                }
            }
            return Err(String::from_str("invalid token amount"));
        }
        let mut j: usize = k + 1;
        while j < n
            invariant
                n == amount@.len(),
                k < n,
                k + 1 <= j <= n,
                amount@[k as int] == '.',
                all_digits(amount@.subrange(0, k as int)),
                all_digits(amount@.subrange(k + 1, j as int)),
            decreases n - j,
        {
            if !is_digit_char(amount.get_char(j)) {
                proof {
                    assert(!all_digits(amount@)) by {
                        assert(!is_digit(amount@[k as int]));
                    }
                    if exists|c: int| is_point_split(amount@, c) {
                        let c = choose|c: int| is_point_split(amount@, c);
                        if c < k {
                            assert(amount@.subrange(0, k as int)[c] == amount@[c]);
                        } else if c > k {
                            assert(amount@.subrange(0, c)[k as int] == amount@[k as int]);
                        } else {
                            assert(amount@.subrange(k + 1, n as int)[j - k - 1] == amount@[j as int]);
                        }
                    }
                }
                return Err(String::from_str("invalid token amount"));
            }
            assert(amount@.subrange(k + 1, j + 1) =~= amount@.subrange(k + 1, j as int).push(
                amount@[j as int],
            ));
            j = j + 1;
        }
        if n - k - 1 > TOKEN_DECIMALS {
            proof {
                assert(!all_digits(amount@)) by {
                    assert(!is_digit(amount@[k as int]));
                }
                if exists|c: int| is_point_split(amount@, c) {
                    let c = choose|c: int| is_point_split(amount@, c);
                    if c < k {
                        assert(amount@.subrange(0, k as int)[c] == amount@[c]);
                    } else if c > k {
                        assert(amount@.subrange(0, c)[k as int] == amount@[k as int]);
                    }
                }
            }
            return Err(String::from_str("invalid fractional part"));
        }
        proof {
            assert(is_point_split(amount@, k as int));
            assert(!all_digits(amount@)) by {
                assert(!is_digit(amount@[k as int]));
            }
            let c = choose|c: int| is_point_split(amount@, c);
            lemma_point_split_unique(amount@, c, k as int);
        }
        digits.append(amount.substring_char(k + 1, n));
        frac_len = n - k - 1;
    }
    let ghost head = digits@;
    let mut p: usize = frac_len;
    while p < TOKEN_DECIMALS
        invariant
            frac_len <= p <= TOKEN_DECIMALS,
            digits@ == head + zeros((p - frac_len) as nat),
        decreases TOKEN_DECIMALS - p,
    {
        proof {
            reveal_strlit("0");
        }
        digits.append("0");
        assert(digits@ =~= head + zeros((p + 1 - frac_len) as nat));
        p = p + 1;
    }
    proof {
        assert forall|i: int| 0 <= i < digits@.len() implies is_digit(#[trigger] digits@[i]) by {
            if i < k {
                assert(digits@[i] == amount@.subrange(0, k as int)[i]);
            } else if i < head.len() {
                assert(digits@[i] == amount@.subrange(k + 1, n as int)[i - k]);
            }
        }
    }
    match decimal_u64(digits.as_str()) {
        Some(_) => Ok(digits),
        None => Err(String::from_str("token amount does not fit in 64 bits")),
    }
}

pub open spec fn is_list_separator(c: char) -> bool {
    c == ',' || c == '[' || c == ']'
}

/// The non-empty pieces of a list literal such as `[1T,2,3]`, in order:
/// commas and brackets separate them.
pub open spec fn list_items(s: Seq<char>) -> Seq<Seq<char>>
    decreases s.len(),
{
    if s.len() == 0 {
        seq![]
    } else {
        let init = list_items(s.drop_last());
        if is_list_separator(s.last()) {
            init
        } else if s.len() >= 2 && !is_list_separator(s[s.len() - 2]) {
            init.update(init.len() - 1, init.last().push(s.last()))
        } else {
            init.push(seq![s.last()])
        }
    }
}

/// What a list of integer arguments becomes: each piece converted as a single one.
pub open spec fn integer_list_param(s: Seq<char>) -> Option<Seq<Seq<char>>> {
    let items = list_items(s);
    if forall|i: int| 0 <= i < items.len() ==> (#[trigger] integer_param(items[i])) is Some {
        Some(Seq::new(items.len(), |i: int| integer_param(items[i]).unwrap()))
    } else {
        None
    }
}

pub(crate) fn skip_leading(s: &str, c: char, lo: usize, hi: usize) -> (r: usize)
    requires
        lo <= hi <= s@.len(),
    ensures
        lo <= r <= hi,
        strip_start(s@.subrange(lo as int, hi as int), c) == s@.subrange(r as int, hi as int),
{
    let mut i = lo;
    while i < hi && s.get_char(i) == c
        invariant
            lo <= i <= hi <= s@.len(),
            strip_start(s@.subrange(lo as int, hi as int), c) == strip_start(
                s@.subrange(i as int, hi as int),
                c,
            ),
        decreases hi - i,
    {
        assert(s@.subrange(i as int, hi as int).drop_first() =~= s@.subrange(i + 1, hi as int));
        i = i + 1;
    }
    i
}

fn skip_trailing(s: &str, c: char, lo: usize, hi: usize) -> (r: usize)
    requires
        lo <= hi <= s@.len(),
    ensures
        lo <= r <= hi,
        strip_end(s@.subrange(lo as int, hi as int), c) == s@.subrange(lo as int, r as int),
{
    let mut j = hi;
    while j > lo && s.get_char(j - 1) == c
        invariant
            lo <= j <= hi <= s@.len(),
            strip_end(s@.subrange(lo as int, hi as int), c) == strip_end(
                s@.subrange(lo as int, j as int),
                c,
            ),
        decreases j - lo,
    {
        assert(s@.subrange(lo as int, j as int).drop_last() =~= s@.subrange(lo as int, j - 1));
        j = j - 1;
    }
    j
}

/// Converts one integer argument: surrounding quotes are removed, and a value
/// ending in `T` is a token amount, rescaled to base units.
pub fn parse_integer_param(value: &str) -> (r: Result<String, String>)
    ensures
        r is Ok <==> integer_param(value@) is Some,
        r matches Ok(v) ==> Some(v@) == integer_param(value@),
{
    let n = value.unicode_len();
    let lo = skip_leading(value, '"', 0, n);
    let hi = skip_trailing(value, '"', lo, n);
    assert(value@.subrange(0, n as int) =~= value@);
    assert(unquoted(value@) == value@.subrange(lo as int, hi as int));
    if hi > lo && value.get_char(hi - 1) == 'T' {
        let t = skip_trailing(value, 'T', lo, hi);
        convert_token(value.substring_char(lo, t))
    } else {
        Ok(String::from_str(value.substring_char(lo, hi)))
    }
}

pub open spec fn views(v: Seq<String>) -> Seq<Seq<char>> {
    v.map_values(|x: String| x@)
}

/// Splits a list literal into its non-empty pieces.
pub fn split_list(value: &str) -> (r: Vec<String>)
    ensures
        views(r@) == list_items(value@),
{
    let n = value.unicode_len();
    let mut out: Vec<String> = Vec::new();
    let mut start: usize = 0;
    let mut i: usize = 0;
    assert(views(out@) =~= seq![]);
    while i < n
        invariant
            n == value@.len(),
            start <= i <= n,
            start == i ==> (i == 0 || is_list_separator(value@[i - 1])),
            forall|j: int| start <= j < i ==> !is_list_separator(#[trigger] value@[j]),
            list_items(value@.subrange(0, i as int)) == if start < i {
                views(out@).push(value@.subrange(start as int, i as int))
            } else {
                views(out@)
            },
        decreases n - i,
    {
        let c = value.get_char(i);
        let ghost prev = value@.subrange(0, i as int);
        let ghost next = value@.subrange(0, i + 1);
        let ghost old_views = views(out@);
        assert(next.drop_last() =~= prev);
        assert(next.last() == c);
        if c == ',' || c == '[' || c == ']' {
            if start < i {
                let piece = String::from_str(value.substring_char(start, i));
                out.push(piece);
                assert(views(out@) =~= old_views.push(value@.subrange(start as int, i as int)));
            }
            start = i + 1;
        } else {
            if start < i {
                assert(next[next.len() - 2] == value@[i - 1]);
                let ghost cur = value@.subrange(start as int, i as int);
                assert(value@.subrange(start as int, i + 1) =~= cur.push(c));
                assert(old_views.push(cur).update(old_views.len() as int, cur.push(c))
                    =~= old_views.push(cur.push(c)));
            } else {
                assert(value@.subrange(start as int, i + 1) =~= seq![c]);
                if i > 0 {
                    assert(next[next.len() - 2] == value@[i - 1]);
                }
            }
        }
        i = i + 1;
    }
    assert(value@.subrange(0, n as int) =~= value@);
    if start < n {
        let ghost old_views = views(out@);
        out.push(String::from_str(value.substring_char(start, n)));
        assert(views(out@) =~= old_views.push(value@.subrange(start as int, n as int)));
    }
    out
}

/// Converts a list of integer arguments piece by piece.
pub fn parse_integer_list(value: &str) -> (r: Result<Vec<String>, String>)
    ensures
        r is Ok <==> integer_list_param(value@) is Some,
        r matches Ok(v) ==> v@.len() == integer_list_param(value@).unwrap().len() && forall|
            i: int,
        |
            0 <= i < v@.len() ==> (#[trigger] v@[i])@ == integer_list_param(value@).unwrap()[i],
{
    let items = split_list(value);
    let ghost spec_items = list_items(value@);
    assert forall|j: int| 0 <= j < items@.len() implies (#[trigger] items@[j])@ == spec_items[j] by {
        assert(views(items@)[j] == items@[j]@);
    }
    let mut out: Vec<String> = Vec::new();
    let mut i: usize = 0;
    while i < items.len()
        invariant
            spec_items == list_items(value@),
            items@.len() == spec_items.len(),
            forall|j: int| 0 <= j < items@.len() ==> (#[trigger] items@[j])@ == spec_items[j],
            i <= items@.len(),
            out@.len() == i,
            forall|j: int| 0 <= j < i ==> Some((#[trigger] out@[j])@) == integer_param(spec_items[j]),
        decreases items@.len() - i,
    {
        assert(items@[i as int]@ == spec_items[i as int]);
        let conv = parse_integer_param(items[i].as_str());
        match conv {
            Ok(v) => {
                let ghost before = out@;
                out.push(v);
                assert forall|j: int| 0 <= j < i + 1 implies Some((#[trigger] out@[j])@)
                    == integer_param(spec_items[j]) by {
                    if j < i {
                        assert(out@[j] == before[j]);
                    }
                }
            },
            Err(e) => {
                assert(!(integer_param(spec_items[i as int]) is Some));
                return Err(e);
            },
        }
        i = i + 1;
    }
    proof {
        assert forall|j: int| 0 <= j < spec_items.len() implies (#[trigger] integer_param(
            spec_items[j],
        )) is Some by {
            assert(integer_param(spec_items[j]) == Some(out@[j]@));
        }
    }
    Ok(out)
}

} // verus!
