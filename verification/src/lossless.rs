use crate::compression::Compression;
use crate::render::{byte_list, decimal, digit, entry_code, slice_code};
use vstd::prelude::*;

verus! {

/// A byte in decimal is one to three digits, none of them a comma.
pub proof fn lemma_decimal_shape(b: u8)
    ensures
        1 <= decimal(b).len() <= 3,
        forall|i: int| 0 <= i < decimal(b).len() ==> decimal(b)[i] != ',',
{
    assert(forall|d: int| 0 <= d < 10 ==> digit(d) != ',');
}

/// Two bytes with the same decimal are the same byte.
pub proof fn lemma_decimal_injective(a: u8, b: u8)
    requires
        decimal(a) == decimal(b),
    ensures
        a == b,
{
    assert(forall|d: int, e: int| 0 <= d < 10 && 0 <= e < 10 && digit(d) == digit(e) ==> d == e);
    let x = decimal(a);
    let y = decimal(b);
    assert(x.len() == y.len());
    if a >= 100 {
        assert(x[0] == y[0] && x[1] == y[1] && x[2] == y[2]);
    } else if a >= 10 {
        assert(x[0] == y[0] && x[1] == y[1]);
    } else {
        assert(x[0] == y[0]);
    }
}

/// The elements of a byte array literal are empty for no bytes, and end in a
/// comma otherwise.
pub proof fn lemma_byte_list_shape(payload: Seq<u8>)
    ensures
        payload.len() == 0 ==> byte_list(payload).len() == 0,
        payload.len() > 0 ==> byte_list(payload).len() >= 2 && byte_list(payload).last() == ',',
{
    if payload.len() > 0 {
        lemma_decimal_shape(payload.last());
    }
}

/// The elements of a byte array literal give the bytes back: two payloads
/// with the same elements are the same payload.
pub proof fn lemma_byte_list_injective(p: Seq<u8>, q: Seq<u8>)
    requires
        byte_list(p) == byte_list(q),
    ensures
        p == q,
    decreases p.len(),
{
    lemma_byte_list_shape(p);
    lemma_byte_list_shape(q);
    if p.len() == 0 || q.len() == 0 {
        assert(p =~= q);
    } else {
        let text = byte_list(p);
        let n = text.len() as int;
        let head_p = byte_list(p.drop_last());
        let head_q = byte_list(q.drop_last());
        let dp = decimal(p.last());
        let dq = decimal(q.last());
        lemma_decimal_shape(p.last());
        lemma_decimal_shape(q.last());
        lemma_byte_list_shape(p.drop_last());
        lemma_byte_list_shape(q.drop_last());
        assert(text == head_p + dp + seq![',']);
        assert(text == head_q + dq + seq![',']);
        assert(n == head_p.len() + dp.len() + 1);
        assert(n == head_q.len() + dq.len() + 1);
        if dp.len() < dq.len() {
            let i = n - 2 - dp.len();
            assert(head_q.len() <= i < head_q.len() + dq.len());
            assert(text[i] == dq[i - head_q.len()]);
            assert(head_p.len() > 0);
            assert(text[i] == head_p.last());
            assert(false);
        }
        if dq.len() < dp.len() {
            let i = n - 2 - dq.len();
            assert(head_p.len() <= i < head_p.len() + dp.len());
            assert(text[i] == dp[i - head_p.len()]);
            assert(head_q.len() > 0);
            assert(text[i] == head_q.last());
            assert(false);
        }
        assert(dp =~= dq) by {
            assert forall|j: int| 0 <= j < dp.len() implies dp[j] == dq[j] by {
                assert(text[head_p.len() + j] == dp[j]);
                assert(text[head_q.len() + j] == dq[j]);
            }
        }
        lemma_decimal_injective(p.last(), q.last());
        assert(head_p =~= head_q) by {
            assert forall|j: int| 0 <= j < head_p.len() implies head_p[j] == head_q[j] by {
                assert(text[j] == head_p[j]);
                assert(text[j] == head_q[j]);
            }
        }
        lemma_byte_list_injective(p.drop_last(), q.drop_last());
        assert(p =~= p.drop_last().push(p.last()));
        assert(q =~= q.drop_last().push(q.last()));
    }
}

/// The expression of bytes as a static slice gives the bytes back.
pub proof fn law_slice_code_lossless(p: Seq<u8>, q: Seq<u8>)
    requires
        slice_code(p) == slice_code(q),
    ensures
        p == q,
{
    let a = "&["@;
    let z = "] as &'static [u8]"@;
    assert(slice_code(p).len() == a.len() + byte_list(p).len() + z.len());
    assert(slice_code(q).len() == a.len() + byte_list(q).len() + z.len());
    assert(byte_list(p) =~= byte_list(q)) by {
        assert forall|j: int| 0 <= j < byte_list(p).len() implies byte_list(p)[j] == byte_list(
            q,
        )[j] by {
            assert(slice_code(p)[a.len() + j] == byte_list(p)[j]);
            assert(slice_code(q)[a.len() + j] == byte_list(q)[j]);
        }
    }
    lemma_byte_list_injective(p, q);
}

/// The expression of an entry gives the kind and the stored bytes back: a
/// declaration loses nothing of what an entry holds.
pub proof fn law_entry_code_lossless(k: Compression, p: Seq<u8>, l: Compression, q: Seq<u8>)
    requires
        entry_code(k, p) == entry_code(l, q),
    ensures
        k == l,
        p == q,
{
    reveal_strlit("(Compression::");
    reveal_strlit("Plain");
    reveal_strlit("Gzip");
    reveal_strlit("Passthrough");
    let a = "(Compression::"@;
    let b = ", "@;
    let z = ")"@;
    let x = entry_code(k, p);
    let y = entry_code(l, q);
    assert(x == a + k.name() + b + slice_code(p) + z);
    assert(y == a + l.name() + b + slice_code(q) + z);
    assert(x[14] == k.name()[0] && x[15] == k.name()[1]);
    assert(y[14] == l.name()[0] && y[15] == l.name()[1]);
    assert(k == l);
    let at = a.len() + k.name().len() + b.len();
    assert(x.len() == at + slice_code(p).len() + z.len());
    assert(y.len() == at + slice_code(q).len() + z.len());
    assert(slice_code(p) =~= slice_code(q)) by {
        assert forall|j: int| 0 <= j < slice_code(p).len() implies slice_code(p)[j]
            == slice_code(q)[j] by {
            assert(x[at + j] == slice_code(p)[j]);
            assert(y[at + j] == slice_code(q)[j]);
        }
    }
    law_slice_code_lossless(p, q);
}

} // verus!
