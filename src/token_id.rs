use vstd::prelude::*;

verus! {

/// The decimal digit character for `d < 10`.
pub open spec fn digit_char(d: nat) -> char {
    if d == 0 { '0' }
    else if d == 1 { '1' }
    else if d == 2 { '2' }
    else if d == 3 { '3' }
    else if d == 4 { '4' }
    else if d == 5 { '5' }
    else if d == 6 { '6' }
    else if d == 7 { '7' }
    else if d == 8 { '8' }
    else { '9' }
}

/// Decimal notation of `n`, most significant digit first, no leading zeros.
pub open spec fn decimal(n: nat) -> Seq<char>
    decreases n,
{
    if n < 10 {
        seq![digit_char(n)]
    } else {
        decimal(n / 10).push(digit_char(n % 10))
    }
}

/// The identifier of the `ordinal`-th token of series `series_id`:
/// `"{series_id}:{ordinal}"`.
pub open spec fn token_id_of(series_id: u64, ordinal: nat) -> Seq<char> {
    decimal(series_id as nat) + seq![':'] + decimal(ordinal)
}

/// Decimal notation is never empty and holds no `':'`.
pub proof fn lemma_decimal_shape(n: nat)
    ensures
        decimal(n).len() >= 1,
        n >= 10 ==> decimal(n).len() >= 2,
        forall|i: int| 0 <= i < decimal(n).len() ==> decimal(n)[i] != ':',
    decreases n,
{
    if n >= 10 {
        lemma_decimal_shape(n / 10);
        assert forall|i: int| 0 <= i < decimal(n).len() implies decimal(n)[i] != ':' by {
            if i < decimal(n / 10).len() {
                assert(decimal(n)[i] == decimal(n / 10)[i]);
            }
        }
    }
}

/// Different numbers have different decimal notations.
pub proof fn lemma_decimal_injective(m: nat, n: nat)
    requires
        decimal(m) == decimal(n),
    ensures
        m == n,
    decreases m,
{
    lemma_decimal_shape(m);
    lemma_decimal_shape(n);
    if m >= 10 && n >= 10 {
        let dm = decimal(m);
        assert(dm.last() == digit_char(m % 10));
        assert(decimal(n).last() == digit_char(n % 10));
        assert(decimal(m / 10) == dm.drop_last());
        assert(decimal(n / 10) == decimal(n).drop_last());
        lemma_decimal_injective(m / 10, n / 10);
    } else if m < 10 && n < 10 {
        assert(decimal(m)[0] == digit_char(m));
        assert(decimal(n)[0] == digit_char(n));
    }
}

/// Token identifiers determine their series and ordinal.
pub proof fn lemma_token_id_injective(a: u64, x: nat, b: u64, y: nat)
    requires
        token_id_of(a, x) == token_id_of(b, y),
    ensures
        a == b,
        x == y,
{
    let da = decimal(a as nat);
    let db = decimal(b as nat);
    let s = token_id_of(a, x);
    lemma_decimal_shape(a as nat);
    lemma_decimal_shape(b as nat);
    lemma_decimal_shape(x);
    lemma_decimal_shape(y);
    if da.len() < db.len() {
        assert(s[da.len() as int] == ':');
        assert(token_id_of(b, y)[da.len() as int] == db[da.len() as int]);
    } else if db.len() < da.len() {
        assert(token_id_of(b, y)[db.len() as int] == ':');
        assert(s[db.len() as int] == da[db.len() as int]);
    }
    assert(da.len() == db.len());
    assert(s.subrange(0, da.len() as int) =~= da);
    assert(token_id_of(b, y).subrange(0, db.len() as int) =~= db);
    lemma_decimal_injective(a as nat, b as nat);
    assert(s.subrange(da.len() as int + 1, s.len() as int) =~= decimal(x));
    assert(token_id_of(b, y).subrange(db.len() as int + 1, s.len() as int) =~= decimal(y));
    lemma_decimal_injective(x, y);
}

/// Relies on std's `Display` for `u64` (through `ToString`): the decimal
/// notation of the number, without sign or padding.
#[verifier::external_body]
fn u64_to_decimal(n: u64) -> (r: String)
    ensures
        r@ == decimal(n as nat),
{
    n.to_string()
}

/// Builds the identifier of the `ordinal`-th token of a series.
pub fn make_token_id(series_id: u64, ordinal: u64) -> (r: String)
    ensures
        r@ == token_id_of(series_id, ordinal as nat),
{
    let mut s = u64_to_decimal(series_id);
    s.append(":");
    let o = u64_to_decimal(ordinal);
    s.append(o.as_str());
    proof {
        reveal_strlit(":");
    }
    s
}

} // verus!
