use vstd::prelude::*;

verus! {

pub const OP_0: u8 = 0x00;
pub const OP_1: u8 = 0x51;
pub const OP_PUSHBYTES_20: u8 = 0x14;
pub const OP_PUSHBYTES_32: u8 = 0x20;
pub const OP_PUSHBYTES_75: u8 = 0x4b;
pub const OP_PUSHDATA1: u8 = 0x4c;
pub const OP_PUSHDATA2: u8 = 0x4d;
pub const OP_PUSHDATA4: u8 = 0x4e;
pub const OP_DUP: u8 = 0x76;
pub const OP_EQUAL: u8 = 0x87;
pub const OP_EQUALVERIFY: u8 = 0x88;
pub const OP_HASH160: u8 = 0xa9;
pub const OP_CHECKSIG: u8 = 0xac;

/// `OP_1 <32-byte key>`: a witness version-1 key-path output.
pub open spec fn is_keypath_spec(s: Seq<u8>) -> bool {
    s.len() == 34 && s[0] == OP_1 && s[1] == OP_PUSHBYTES_32
}

/// `OP_0 <20-byte hash>`: a witness version-0 key-hash output.
pub open spec fn is_v0_keyhash_spec(s: Seq<u8>) -> bool {
    s.len() == 22 && s[0] == OP_0 && s[1] == OP_PUSHBYTES_20
}

/// `OP_DUP OP_HASH160 <20 bytes> OP_EQUALVERIFY OP_CHECKSIG`.
pub open spec fn is_legacy_keyhash_spec(s: Seq<u8>) -> bool {
    s.len() == 25 && s[0] == OP_DUP && s[1] == OP_HASH160 && s[2] == OP_PUSHBYTES_20
        && s[23] == OP_EQUALVERIFY && s[24] == OP_CHECKSIG
}

/// `OP_HASH160 <20 bytes> OP_EQUAL`.
pub open spec fn is_script_hash_spec(s: Seq<u8>) -> bool {
    s.len() == 23 && s[0] == OP_HASH160 && s[1] == OP_PUSHBYTES_20 && s[22] == OP_EQUAL
}

pub fn is_keypath(s: &[u8]) -> (r: bool)
    ensures
        r == is_keypath_spec(s@),
{
    s.len() == 34 && s[0] == OP_1 && s[1] == OP_PUSHBYTES_32
}

pub fn is_v0_keyhash(s: &[u8]) -> (r: bool)
    ensures
        r == is_v0_keyhash_spec(s@),
{
    s.len() == 22 && s[0] == OP_0 && s[1] == OP_PUSHBYTES_20
}

pub fn is_legacy_keyhash(s: &[u8]) -> (r: bool)
    ensures
        r == is_legacy_keyhash_spec(s@),
{
    s.len() == 25 && s[0] == OP_DUP && s[1] == OP_HASH160 && s[2] == OP_PUSHBYTES_20
        && s[23] == OP_EQUALVERIFY && s[24] == OP_CHECKSIG
}

pub fn is_script_hash(s: &[u8]) -> (r: bool)
    ensures
        r == is_script_hash_spec(s@),
{
    s.len() == 23 && s[0] == OP_HASH160 && s[1] == OP_PUSHBYTES_20 && s[22] == OP_EQUAL
}

/// Where the data of the push that starts at `i` begins, and how long it is;
/// `None` when the byte at `i` is not a data push or its length bytes are cut off.
pub open spec fn push_header(s: Seq<u8>, i: int) -> Option<(int, int)> {
    let op = s[i];
    if 1 <= op <= OP_PUSHBYTES_75 {
        Some((i + 1, op as int))
    } else if op == OP_PUSHDATA1 && i + 2 <= s.len() {
        Some((i + 2, s[i + 1] as int))
    } else if op == OP_PUSHDATA2 && i + 3 <= s.len() {
        Some((i + 3, s[i + 1] + 256 * s[i + 2]))
    } else if op == OP_PUSHDATA4 && i + 5 <= s.len() {
        Some((i + 5, s[i + 1] + 256 * s[i + 2] + 65536 * s[i + 3] + 16777216 * s[i + 4]))
    } else {
        None
    }
}

/// The data pushes of the push-only script `s` from offset `i` on, or `None`
/// when that part of the script is not made of complete data pushes.
pub open spec fn pushes_from(s: Seq<u8>, i: int) -> Option<Seq<Seq<u8>>>
    decreases s.len() - i,
{
    if i < 0 || i >= s.len() {
        Some(Seq::empty())
    } else {
        match push_header(s, i) {
            None => None,
            Some((start, n)) => {
                if start + n <= s.len() {
                    match pushes_from(s, start + n) {
                        None => None,
                        Some(rest) => Some(seq![s.subrange(start, start + n)] + rest),
                    }
                } else {
                    None
                }
            },
        }
    }
}

/// The data pushes of a push-only script.
pub open spec fn pushes(s: Seq<u8>) -> Option<Seq<Seq<u8>>> {
    pushes_from(s, 0)
}

pub open spec fn prepend(acc: Seq<Seq<u8>>, r: Option<Seq<Seq<u8>>>) -> Option<Seq<Seq<u8>>> {
    match r {
        None => None,
        Some(rest) => Some(acc + rest),
    }
}

/// Reads the opcode at `i` and the length bytes that follow it.
fn read_push_header(s: &[u8], i: usize) -> (r: Option<(usize, usize)>)
    requires
        i < s.len(),
    ensures
        match r {
            None => push_header(s@, i as int) is None,
            Some((start, n)) => push_header(s@, i as int) is Some
                && push_header(s@, i as int).unwrap().0 == start as int
                && start <= s.len()
                && (push_header(s@, i as int).unwrap().1 == n as int || (n == s.len()
                && push_header(s@, i as int).unwrap().1 > s.len())),
        },
{
    let op = s[i];
    if 1 <= op && op <= OP_PUSHBYTES_75 {
        Some((i + 1, op as usize))
    } else if op == OP_PUSHDATA1 && s.len() - i >= 2 {
        Some((i + 2, s[i + 1] as usize))
    } else if op == OP_PUSHDATA2 && s.len() - i >= 3 {
        Some((i + 3, s[i + 1] as usize + 256 * (s[i + 2] as usize)))
    } else if op == OP_PUSHDATA4 && s.len() - i >= 5 {
        let n: u64 = s[i + 1] as u64 + 256 * (s[i + 2] as u64) + 65536 * (s[i + 3] as u64)
            + 16777216 * (s[i + 4] as u64);
        if n > s.len() as u64 {
            // longer than the script: report a length that cannot fit either
            Some((i + 5, s.len()))
        } else {
            Some((i + 5, n as usize))
        }
    } else {
        None
    }
}

/// A copy of `s[lo..hi]`.
pub fn copy_range(s: &[u8], lo: usize, hi: usize) -> (r: Vec<u8>)
    requires
        lo <= hi <= s.len(),
    ensures
        r@ == s@.subrange(lo as int, hi as int),
{
    let mut data: Vec<u8> = Vec::new();
    let mut k: usize = lo;
    while k < hi
        invariant
            lo <= k <= hi <= s.len(),
            data@ == s@.subrange(lo as int, k as int),
        decreases hi - k,
    {
        data.push(s[k]);
        proof {
            assert(s@.subrange(lo as int, k + 1) =~= s@.subrange(lo as int, k as int).push(s@[k as int]));
        }
        k = k + 1;
    }
    data
}

/// Splits a push-only script into its data pushes.
pub fn parse_pushes(s: &[u8]) -> (r: Option<Vec<Vec<u8>>>)
    ensures
        match r {
            None => pushes(s@) is None,
            Some(v) => pushes(s@) == Some(v@.map_values(|d: Vec<u8>| d@)),
        },
{
    let mut acc: Vec<Vec<u8>> = Vec::new();
    let mut i: usize = 0;
    while i < s.len()
        invariant
            i <= s.len(),
            pushes(s@) == prepend(acc@.map_values(|d: Vec<u8>| d@), pushes_from(s@, i as int)),
        decreases s.len() - i,
    {
        let h = read_push_header(s, i);
        if h.is_none() {
            return None;
        }
        let (start, n) = h.unwrap();
        if n > s.len() - start {
            return None;
        }
        let data = copy_range(s, start, start + n);
        let ghost old_acc = acc@.map_values(|d: Vec<u8>| d@);
        acc.push(data);
        proof {
            let new_acc = acc@.map_values(|d: Vec<u8>| d@);
            assert(new_acc =~= old_acc.push(s@.subrange(start as int, (start + n) as int)));
            match pushes_from(s@, (start + n) as int) {
                None => {},
                Some(rest) => {
                    assert(old_acc + (seq![s@.subrange(start as int, (start + n) as int)] + rest)
                        =~= new_acc + rest);
                },
            }
        }
        i = start + n;
    }
    proof {
        assert(acc@.map_values(|d: Vec<u8>| d@) + Seq::<Seq<u8>>::empty() =~= acc@.map_values(|d: Vec<u8>| d@));
    }
    Some(acc)
}

} // verus!
