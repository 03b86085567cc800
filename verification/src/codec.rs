//! Fixed-schema codec for the persisted Campaign record and for the
//! withdraw request parameters.
//!
//! The persisted layout is versionless and positional: a 32-byte admin
//! identity, three length-prefixed byte fields (little-endian 32-bit
//! length, then the bytes), and a little-endian 64-bit donation counter.
//! Decoding demands that the buffer is consumed exactly; trailing bytes
//! make the buffer malformed.

use vstd::prelude::*;

verus! {

/// A campaign record as stored inside a contract-owned account's buffer.
pub struct Campaign {
    /// Identity of the account authorized to withdraw; fixed at creation.
    pub admin: Vec<u8>,
    /// Display name, arbitrary bytes.
    pub name: Vec<u8>,
    /// Display description, arbitrary bytes.
    pub description: Vec<u8>,
    /// Display image link, arbitrary bytes.
    pub image_link: Vec<u8>,
    /// Cumulative funds routed through the campaign; never decremented.
    pub amount_donated: u64,
}

/// Mathematical model of a campaign record.
#[verifier::ext_equal]
pub ghost struct CampaignView {
    pub admin: Seq<u8>,
    pub name: Seq<u8>,
    pub description: Seq<u8>,
    pub image_link: Seq<u8>,
    pub amount_donated: u64,
}

impl View for Campaign {
    type V = CampaignView;

    open spec fn view(&self) -> CampaignView {
        CampaignView {
            admin: self.admin@,
            name: self.name@,
            description: self.description@,
            image_link: self.image_link@,
            amount_donated: self.amount_donated,
        }
    }
}

impl CampaignView {
    /// A record is well formed when the admin identity is exactly 32 bytes
    /// and each text field fits behind its 32-bit length prefix.
    pub open spec fn wf(self) -> bool {
        &&& self.admin.len() == 32
        &&& self.name.len() < 0x1_0000_0000
        &&& self.description.len() < 0x1_0000_0000
        &&& self.image_link.len() < 0x1_0000_0000
    }
}

/// 256 raised to the `k`-th power: the number of values `k` bytes can hold.
pub open spec fn pow256(k: nat) -> int
    decreases k,
{
    if k == 0 {
        1
    } else {
        256 * pow256((k - 1) as nat)
    }
}

/// The `k` little-endian bytes of the number `n` (high bits beyond the
/// `k`-th byte are dropped).
pub open spec fn le_bytes_of(n: int, k: nat) -> Seq<u8>
    decreases k,
{
    if k == 0 {
        Seq::empty()
    } else {
        seq![(n % 256) as u8] + le_bytes_of(n / 256, (k - 1) as nat)
    }
}

/// The number that a little-endian byte sequence denotes.
pub open spec fn le_word_of(b: Seq<u8>) -> int
    decreases b.len(),
{
    if b.len() == 0 {
        0
    } else {
        b[0] + 256 * le_word_of(b.skip(1))
    }
}

pub proof fn lemma_le_bytes_len(n: int, k: nat)
    ensures
        le_bytes_of(n, k).len() == k,
    decreases k,
{
    if k > 0 {
        lemma_le_bytes_len(n / 256, (k - 1) as nat);
    }
}

pub proof fn lemma_le_word_bound(b: Seq<u8>)
    ensures
        0 <= le_word_of(b) < pow256(b.len()),
    decreases b.len(),
{
    if b.len() > 0 {
        lemma_le_word_bound(b.skip(1));
    }
}

/// Reading back the little-endian bytes of `n` yields `n` whenever `n`
/// fits in `k` bytes.
pub proof fn lemma_le_bytes_roundtrip(n: int, k: nat)
    requires
        0 <= n < pow256(k),
    ensures
        le_word_of(le_bytes_of(n, k)) == n,
    decreases k,
{
    if k == 0 {
    } else {
        let tail = le_bytes_of(n / 256, (k - 1) as nat);
        assert(0 <= n / 256 < pow256((k - 1) as nat)) by {
            vstd::arithmetic::div_mod::lemma_div_is_ordered(n, 256 * pow256((k - 1) as nat) - 1, 256);
            assert((256 * pow256((k - 1) as nat) - 1) / 256 == pow256((k - 1) as nat) - 1) by {
                vstd::arithmetic::div_mod::lemma_fundamental_div_mod_converse(
                    256 * pow256((k - 1) as nat) - 1,
                    256,
                    pow256((k - 1) as nat) - 1,
                    255,
                );
            }
        }
        lemma_le_bytes_roundtrip(n / 256, (k - 1) as nat);
        let whole = le_bytes_of(n, k);
        assert(whole.skip(1) =~= tail);
        assert(whole[0] == (n % 256) as u8);
        assert(le_word_of(whole) == n % 256 + 256 * (n / 256));
        vstd::arithmetic::div_mod::lemma_fundamental_div_mod(n, 256);
    }
}

/// Exact byte layout of a campaign record.
pub open spec fn encode_campaign_spec(c: CampaignView) -> Seq<u8> {
    c.admin + le_bytes_of(c.name.len() as int, 4) + c.name + le_bytes_of(
        c.description.len() as int,
        4,
    ) + c.description + le_bytes_of(c.image_link.len() as int, 4) + c.image_link + le_bytes_of(
        c.amount_donated as int,
        8,
    )
}

/// One length-prefixed byte field read at offset `i`: the field's bytes
/// and the offset just past them, or nothing if the buffer is too short.
pub open spec fn parse_field_spec(b: Seq<u8>, i: int) -> Option<(Seq<u8>, int)> {
    if i + 4 <= b.len() {
        let n = le_word_of(b.subrange(i, i + 4));
        if i + 4 + n <= b.len() {
            Some((b.subrange(i + 4, i + 4 + n), i + 4 + n))
        } else {
            None
        }
    } else {
        None
    }
}

/// Total parser for a stored campaign record: succeeds exactly on buffers
/// that the schema consumes in full.
pub open spec fn decode_campaign_spec(b: Seq<u8>) -> Option<CampaignView> {
    if b.len() < 32 {
        None
    } else {
        match parse_field_spec(b, 32) {
            None => None,
            Some((name, i1)) => match parse_field_spec(b, i1) {
                None => None,
                Some((description, i2)) => match parse_field_spec(b, i2) {
                    None => None,
                    Some((image_link, i3)) => if i3 + 8 == b.len() {
                        Some(
                            CampaignView {
                                admin: b.subrange(0, 32),
                                name,
                                description,
                                image_link,
                                amount_donated: le_word_of(b.subrange(i3, i3 + 8)) as u64,
                            },
                        )
                    } else {
                        None
                    },
                },
            },
        }
    }
}

/// Total parser for withdraw request parameters: exactly eight bytes
/// holding the little-endian amount.
pub open spec fn decode_withdraw_spec(b: Seq<u8>) -> Option<u64> {
    if b.len() == 8 {
        Some(le_word_of(b) as u64)
    } else {
        None
    }
}

pub proof fn lemma_pow256_mono(a: nat, b: nat)
    requires
        a <= b,
    ensures
        1 <= pow256(a) <= pow256(b),
    decreases b,
{
    if b > 0 {
        if a == b {
            lemma_pow256_mono((a - 1) as nat, (b - 1) as nat);
        } else {
            lemma_pow256_mono(a, (b - 1) as nat);
        }
    }
}

/// Reads the `k`-byte little-endian number stored at offset `start`.
fn read_le_word(b: &Vec<u8>, start: usize, k: usize) -> (r: u64)
    requires
        start + k <= b@.len(),
        k <= 8,
    ensures
        r == le_word_of(b@.subrange(start as int, start as int + k as int)),
{
    proof {
        reveal_with_fuel(pow256, 9);
    }
    let blen: usize = b.len();
    let mut acc: u64 = 0;
    let mut i: usize = k;
    while i > 0
        invariant
            start + k <= blen == b@.len(),
            k <= 8,
            i <= k,
            acc == le_word_of(b@.subrange(start as int + i as int, start as int + k as int)),
            acc < pow256((k - i) as nat),
        decreases i,
    {
        proof {
            lemma_pow256_mono((k - i) as nat, 7);
            reveal_with_fuel(pow256, 9);
        }
        i = i - 1;
        let ghost prev = b@.subrange(start as int + i as int + 1, start as int + k as int);
        acc = (b[start + i] as u64) + 256 * acc;
        proof {
            let cur = b@.subrange(start as int + i as int, start as int + k as int);
            assert(cur.skip(1) =~= prev);
            assert(cur[0] == b@[start as int + i as int]);
            lemma_pow256_mono(((k - i) as nat - 1) as nat, 7);
        }
    }
    proof {
        assert(b@.subrange(start as int, start as int + k as int) == b@.subrange(
            start as int + i as int,
            start as int + k as int,
        ));
    }
    acc
}

/// Appends the `k` little-endian bytes of `n`.
fn push_le_bytes(out: &mut Vec<u8>, n: u64, k: usize)
    ensures
        final(out)@ == old(out)@ + le_bytes_of(n as int, k as nat),
{
    let mut m = n;
    let mut j: usize = 0;
    while j < k
        invariant
            j <= k,
            out@ + le_bytes_of(m as int, (k - j) as nat) == old(out)@ + le_bytes_of(
                n as int,
                k as nat,
            ),
        decreases k - j,
    {
        let ghost before = out@;
        let ghost rest = le_bytes_of(m as int, (k - j) as nat);
        out.push((m % 256) as u8);
        proof {
            assert(rest == seq![(m as int % 256) as u8] + le_bytes_of(
                m as int / 256,
                (k - j - 1) as nat,
            ));
            assert(out@ + le_bytes_of(m as int / 256, (k - j - 1) as nat) =~= before + rest);
        }
        m = m / 256;
        j = j + 1;
    }
    proof {
        assert(out@ + le_bytes_of(m as int, 0) =~= out@);
    }
}

/// Appends a copy of `src`.
fn push_bytes(out: &mut Vec<u8>, src: &Vec<u8>)
    ensures
        final(out)@ == old(out)@ + src@,
{
    let mut i: usize = 0;
    while i < src.len()
        invariant
            i <= src@.len(),
            out@ == old(out)@ + src@.take(i as int),
        decreases src@.len() - i,
    {
        let ghost before = out@;
        out.push(src[i]);
        proof {
            assert(out@ =~= old(out)@ + src@.take(i as int + 1));
        }
        i = i + 1;
    }
    proof {
        assert(old(out)@ + src@.take(src@.len() as int) =~= old(out)@ + src@);
    }
}

/// Copies `len` bytes starting at `start`.
pub(crate) fn read_bytes(b: &Vec<u8>, start: usize, len: usize) -> (r: Vec<u8>)
    requires
        start + len <= b@.len(),
    ensures
        r@ == b@.subrange(start as int, start as int + len as int),
{
    let blen: usize = b.len();
    let mut out: Vec<u8> = Vec::new();
    let mut i: usize = 0;
    while i < len
        invariant
            i <= len,
            start + len <= blen == b@.len(),
            out@ == b@.subrange(start as int, start as int + i as int),
        decreases len - i,
    {
        out.push(b[start + i]);
        proof {
            assert(out@ =~= b@.subrange(start as int, start as int + i as int + 1));
        }
        i = i + 1;
    }
    out
}

/// Byte-for-byte equality of two buffers.
pub fn bytes_eq(a: &Vec<u8>, b: &Vec<u8>) -> (r: bool)
    ensures
        r == (a@ == b@),
{
    if a.len() != b.len() {
        return false;
    }
    let mut i: usize = 0;
    while i < a.len()
        invariant
            a@.len() == b@.len(),
            i <= a@.len(),
            forall|j: int| 0 <= j < i ==> a@[j] == b@[j],
        decreases a@.len() - i,
    {
        if a[i] != b[i] {
            return false;
        }
        i = i + 1;
    }
    proof {
        assert(a@ =~= b@);
    }
    true
}

/// Serializes a campaign record into the fixed schema.
pub fn encode_campaign(c: &Campaign) -> (r: Vec<u8>)
    ensures
        r@ == encode_campaign_spec(c@),
{
    let mut out: Vec<u8> = Vec::new();
    push_bytes(&mut out, &c.admin);
    push_le_bytes(&mut out, c.name.len() as u64, 4);
    push_bytes(&mut out, &c.name);
    push_le_bytes(&mut out, c.description.len() as u64, 4);
    push_bytes(&mut out, &c.description);
    push_le_bytes(&mut out, c.image_link.len() as u64, 4);
    push_bytes(&mut out, &c.image_link);
    push_le_bytes(&mut out, c.amount_donated, 8);
    out
}

/// Reads one length-prefixed field at offset `i`.
fn parse_field(b: &Vec<u8>, i: usize) -> (r: Option<(Vec<u8>, usize)>)
    requires
        i <= b@.len(),
    ensures
        match r {
            Some(p) => {
                &&& parse_field_spec(b@, i as int) == Some((p.0@, p.1 as int))
                &&& i + 4 <= p.1 <= b@.len()
            },
            None => parse_field_spec(b@, i as int) is None,
        },
{
    if b.len() - i < 4 {
        return None;
    }
    let n64 = read_le_word(b, i, 4);
    proof {
        lemma_le_word_bound(b@.subrange(i as int, i as int + 4));
        reveal_with_fuel(pow256, 5);
    }
    let n = n64 as usize;
    if b.len() - (i + 4) < n {
        return None;
    }
    let f = read_bytes(b, i + 4, n);
    Some((f, i + 4 + n))
}

/// Deserializes a stored campaign record; fails exactly on buffers the
/// schema does not consume in full.
pub fn decode_campaign(b: &Vec<u8>) -> (r: Option<Campaign>)
    ensures
        match r {
            Some(c) => decode_campaign_spec(b@) == Some(c@),
            None => decode_campaign_spec(b@) is None,
        },
{
    if b.len() < 32 {
        return None;
    }
    let admin = read_bytes(b, 0, 32);
    let (name, i1) = match parse_field(b, 32) {
        None => {
            return None;
        },
        Some(p) => p,
    };
    let (description, i2) = match parse_field(b, i1) {
        None => {
            return None;
        },
        Some(p) => p,
    };
    let (image_link, i3) = match parse_field(b, i2) {
        None => {
            return None;
        },
        Some(p) => p,
    };
    if b.len() - i3 != 8 {
        return None;
    }
    let amount_donated = read_le_word(b, i3, 8);
    Some(Campaign { admin, name, description, image_link, amount_donated })
}

/// Deserializes withdraw request parameters: exactly eight bytes.
pub fn decode_withdraw(b: &Vec<u8>) -> (r: Option<u64>)
    ensures
        r == decode_withdraw_spec(b@),
{
    if b.len() != 8 {
        return None;
    }
    let amount = read_le_word(b, 0, 8);
    proof {
        assert(b@.subrange(0, 8) =~= b@);
    }
    Some(amount)
}

/// Every record a buffer decodes to is well formed.
pub proof fn lemma_decode_wf(b: Seq<u8>)
    ensures
        decode_campaign_spec(b) matches Some(c) ==> c.wf(),
{
    reveal_with_fuel(pow256, 5);
    if b.len() >= 32 && parse_field_spec(b, 32) is Some {
        let p1 = parse_field_spec(b, 32).unwrap();
        lemma_le_word_bound(b.subrange(32, 36));
        if parse_field_spec(b, p1.1) is Some {
            let p2 = parse_field_spec(b, p1.1).unwrap();
            lemma_le_word_bound(b.subrange(p1.1, p1.1 + 4));
            if parse_field_spec(b, p2.1) is Some {
                let p3 = parse_field_spec(b, p2.1).unwrap();
                lemma_le_word_bound(b.subrange(p2.1, p2.1 + 4));
            }
        }
    }
}

/// A byte sequence is reproduced by re-encoding the number it denotes.
pub proof fn lemma_le_word_inverse(s: Seq<u8>)
    ensures
        le_bytes_of(le_word_of(s), s.len()) == s,
    decreases s.len(),
{
    if s.len() == 0 {
        assert(le_bytes_of(le_word_of(s), 0) =~= s);
    } else {
        let t = s.skip(1);
        lemma_le_word_inverse(t);
        lemma_le_word_bound(t);
        let w = le_word_of(s);
        vstd::arithmetic::div_mod::lemma_fundamental_div_mod_converse(
            w,
            256,
            le_word_of(t),
            s[0] as int,
        );
        assert(le_bytes_of(w, s.len()) =~= s);
    }
}

/// Decoding succeeds only on the exact encoding of its result: the stored
/// byte layout of any record that decodes is unique.
pub proof fn lemma_decode_exact(b: Seq<u8>)
    ensures
        decode_campaign_spec(b) matches Some(c) ==> b == encode_campaign_spec(c),
{
    reveal_with_fuel(pow256, 9);
    if decode_campaign_spec(b) is Some {
        let c = decode_campaign_spec(b).unwrap();
        let p1 = parse_field_spec(b, 32).unwrap();
        let i1 = p1.1;
        let p2 = parse_field_spec(b, i1).unwrap();
        let i2 = p2.1;
        let p3 = parse_field_spec(b, i2).unwrap();
        let i3 = p3.1;
        lemma_le_word_inverse(b.subrange(32, 36));
        lemma_le_word_inverse(b.subrange(i1, i1 + 4));
        lemma_le_word_inverse(b.subrange(i2, i2 + 4));
        lemma_le_word_inverse(b.subrange(i3, i3 + 8));
        lemma_le_word_bound(b.subrange(32, 36));
        lemma_le_word_bound(b.subrange(i1, i1 + 4));
        lemma_le_word_bound(b.subrange(i2, i2 + 4));
        lemma_le_word_bound(b.subrange(i3, i3 + 8));
        assert(c.name == b.subrange(36, 36 + le_word_of(b.subrange(32, 36))));
        assert(c.description == b.subrange(i1 + 4, i1 + 4 + le_word_of(b.subrange(i1, i1 + 4))));
        assert(c.image_link == b.subrange(i2 + 4, i2 + 4 + le_word_of(b.subrange(i2, i2 + 4))));
        assert(c.name.len() == le_word_of(b.subrange(32, 36)));
        assert(c.description.len() == le_word_of(b.subrange(i1, i1 + 4)));
        assert(c.image_link.len() == le_word_of(b.subrange(i2, i2 + 4)));
        assert(c.amount_donated as int == le_word_of(b.subrange(i3, i3 + 8)));
        assert(le_bytes_of(c.name.len() as int, 4) == b.subrange(32, 36));
        assert(le_bytes_of(c.description.len() as int, 4) == b.subrange(i1, i1 + 4));
        assert(le_bytes_of(c.image_link.len() as int, 4) == b.subrange(i2, i2 + 4));
        assert(le_bytes_of(c.amount_donated as int, 8) == b.subrange(i3, i3 + 8));
        assert(encode_campaign_spec(c) =~= b);
    }
}

/// Encoding a well-formed campaign record and decoding the bytes
/// reproduces every field exactly.
pub proof fn lemma_codec_roundtrip(c: CampaignView)
    requires
        c.wf(),
    ensures
        decode_campaign_spec(encode_campaign_spec(c)) == Some(c),
{
    reveal_with_fuel(pow256, 9);
    let e = encode_campaign_spec(c);
    let n1 = c.name.len() as int;
    let n2 = c.description.len() as int;
    let n3 = c.image_link.len() as int;
    lemma_le_bytes_len(n1, 4);
    lemma_le_bytes_len(n2, 4);
    lemma_le_bytes_len(n3, 4);
    lemma_le_bytes_len(c.amount_donated as int, 8);
    let i1 = 36 + n1;
    let i2 = i1 + 4 + n2;
    let i3 = i2 + 4 + n3;
    assert(e.len() == i3 + 8);
    lemma_le_bytes_roundtrip(n1, 4);
    lemma_le_bytes_roundtrip(n2, 4);
    lemma_le_bytes_roundtrip(n3, 4);
    lemma_le_bytes_roundtrip(c.amount_donated as int, 8);
    assert(e.subrange(0, 32) =~= c.admin);
    assert(e.subrange(32, 36) =~= le_bytes_of(n1, 4));
    assert(e.subrange(36, i1) =~= c.name);
    assert(parse_field_spec(e, 32) == Some((c.name, i1)));
    assert(e.subrange(i1, i1 + 4) =~= le_bytes_of(n2, 4));
    assert(e.subrange(i1 + 4, i2) =~= c.description);
    assert(parse_field_spec(e, i1) == Some((c.description, i2)));
    assert(e.subrange(i2, i2 + 4) =~= le_bytes_of(n3, 4));
    assert(e.subrange(i2 + 4, i3) =~= c.image_link);
    assert(parse_field_spec(e, i2) == Some((c.image_link, i3)));
    assert(e.subrange(i3, i3 + 8) =~= le_bytes_of(c.amount_donated as int, 8));
    let d = decode_campaign_spec(e).unwrap();
    assert(d =~= c);
}

} // verus!
