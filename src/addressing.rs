use vstd::prelude::*;

verus! {

/// The ASCII code of the digit zero.
pub const ASCII_ZERO: u8 = 48;

/// The name of the endpoint that the single daemon binds: `zed-preview`.
pub open spec fn well_known_name() -> Seq<u8> {
    seq![122, 101, 100, 45, 112, 114, 101, 118, 105, 101, 119]
}

/// What every client endpoint name starts with: `zed-cli-`.
pub open spec fn client_prefix() -> Seq<u8> {
    seq![122, 101, 100, 45, 99, 108, 105, 45]
}

/// The ASCII decimal digits of `n`, most significant first, without leading zeros.
pub open spec fn decimal(n: nat) -> Seq<u8>
    decreases n,
{
    if n < 10 {
        seq![(ASCII_ZERO + n) as u8]
    } else {
        decimal(n / 10).push((ASCII_ZERO + n % 10) as u8)
    }
}

/// The name of the reply endpoint of the client whose process id is `pid`.
pub open spec fn ephemeral_name(pid: nat) -> Seq<u8> {
    client_prefix() + decimal(pid)
}

/// The well-known endpoint name, fixed for the application.
pub fn well_known_endpoint() -> (r: Vec<u8>)
    ensures
        r@ == well_known_name(),
{
    let r = vec![122, 101, 100, 45, 112, 114, 101, 118, 105, 101, 119];
    assert(r@ =~= well_known_name());
    r
}

fn push_decimal(n: u32, out: &mut Vec<u8>)
    ensures
        final(out)@ == old(out)@ + decimal(n as nat),
    decreases n,
{
    if n >= 10 {
        push_decimal(n / 10, out);
    }
    out.push(ASCII_ZERO + (n % 10) as u8);
    assert(final(out)@ =~= old(out)@ + decimal(n as nat));
}

/// The reply endpoint name of the client with process id `pid`.
pub fn ephemeral_endpoint(pid: u32) -> (r: Vec<u8>)
    ensures
        r@ == ephemeral_name(pid as nat),
{
    let mut r = vec![122, 101, 100, 45, 99, 108, 105, 45];
    assert(r@ =~= client_prefix());
    push_decimal(pid, &mut r);
    r
}

proof fn lemma_decimal_nonempty(n: nat)
    ensures
        decimal(n).len() >= 1,
        decimal(n).len() == 1 <==> n < 10,
    decreases n,
{
    if n >= 10 {
        lemma_decimal_nonempty(n / 10);
    }
}

proof fn lemma_decimal_injective(a: nat, b: nat)
    requires
        decimal(a) == decimal(b),
    ensures
        a == b,
    decreases a,
{
    lemma_decimal_nonempty(a);
    lemma_decimal_nonempty(b);
    if a < 10 {
        assert(b < 10);
        assert(decimal(a)[0] == decimal(b)[0]);
        assert(decimal(a)[0] == (ASCII_ZERO + a) as u8);
        assert(decimal(b)[0] == (ASCII_ZERO + b) as u8);
    } else {
        let da = decimal(a);
        let db = decimal(b);
        assert(da.last() == db.last());
        assert(da.drop_last() =~= decimal(a / 10));
        assert(db.drop_last() =~= decimal(b / 10));
        assert(b >= 10);
        assert(a % 10 == b % 10);
        lemma_decimal_injective(a / 10, b / 10);
        assert(a == 10 * (a / 10) + a % 10);
        assert(b == 10 * (b / 10) + b % 10);
    }
}

/// Distinct processes get distinct reply endpoints, and no client endpoint is
/// the daemon's well-known endpoint.
pub proof fn lemma_endpoints_distinct(p: nat, q: nat)
    ensures
        p != q ==> ephemeral_name(p) != ephemeral_name(q),
        ephemeral_name(p) != well_known_name(),
{
    if ephemeral_name(p) == ephemeral_name(q) {
        assert(ephemeral_name(p).subrange(8, ephemeral_name(p).len() as int) =~= decimal(p));
        assert(ephemeral_name(q).subrange(8, ephemeral_name(q).len() as int) =~= decimal(q));
        lemma_decimal_injective(p, q);
    }
    assert(ephemeral_name(p)[4] != well_known_name()[4]);
}

} // verus!
