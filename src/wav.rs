//! RIFF/WAVE container parsing: the format chunk's fields and the samples
//! of the data chunk.
use vstd::prelude::*;

verus! {

#[derive(Clone, Debug)]
pub struct WAV {
    pub channels: u16,
    pub sample_rate: u32,
    pub sample_bits: u16,
    pub data: Vec<u8>,
}

/// The fields of a parsed file: channels, sample rate, sample bits, samples.
pub type WavFields = (u16, u32, u16, Seq<u8>);

/// The byte at `i`, or 0 past either end.
pub open spec fn byte_at(f: Seq<u8>, i: int) -> u8 {
    if 0 <= i < f.len() {
        f[i]
    } else {
        0
    }
}

/// The little-endian 16-bit word at `i`.
pub open spec fn word_at(f: Seq<u8>, i: int) -> u16 {
    (byte_at(f, i) as int + byte_at(f, i + 1) as int * 256) as u16
}

/// The little-endian 32-bit word at `i`.
pub open spec fn dword_at(f: Seq<u8>, i: int) -> u32 {
    (byte_at(f, i) as int + byte_at(f, i + 1) as int * 256 + byte_at(f, i + 2) as int * 65536
        + byte_at(f, i + 3) as int * 16777216) as u32
}

/// Whether the four bytes at `i` are `tag`.
pub open spec fn tag_at(f: Seq<u8>, i: int, tag: Seq<u8>) -> bool {
    byte_at(f, i) == tag[0] && byte_at(f, i + 1) == tag[1] && byte_at(f, i + 2) == tag[2]
        && byte_at(f, i + 3) == tag[3]
}

pub open spec fn riff() -> Seq<u8> {
    seq![82u8, 73, 70, 70]
}

pub open spec fn wave() -> Seq<u8> {
    seq![87u8, 65, 86, 69]
}

pub open spec fn fmt_tag() -> Seq<u8> {
    seq![102u8, 109, 116, 32]
}

pub open spec fn data_tag() -> Seq<u8> {
    seq![100u8, 97, 116, 97]
}

/// Up to `count` bytes from `start`, as many as the file holds.
pub open spec fn bytes_from(f: Seq<u8>, start: int, count: int) -> Seq<u8> {
    let s = if start < f.len() { start } else { f.len() as int };
    let e = if s + count < f.len() { s + count } else { f.len() as int };
    f.subrange(s, e)
}

pub open spec fn empty_fields() -> WavFields {
    (0u16, 0u32, 0u16, Seq::<u8>::empty())
}

/// The fields after reading the chunk at `i` and those after it, starting
/// from `m`. A chunk of size 0, or one whose size lies past the end, ends the file.
pub open spec fn chunks(f: Seq<u8>, i: int, m: WavFields) -> WavFields
    decreases (if i < f.len() { f.len() - i } else { 0 }),
{
    let size = dword_at(f, i + 4);
    if i < 0 || i + 4 >= f.len() || size == 0 {
        m
    } else {
        let m1 = if tag_at(f, i, fmt_tag()) {
            (word_at(f, i + 10), dword_at(f, i + 12), word_at(f, i + 22), m.3)
        } else {
            m
        };
        let m2 = if tag_at(f, i, data_tag()) {
            (m1.0, m1.1, m1.2, bytes_from(f, i + 8, size as int))
        } else {
            m1
        };
        chunks(f, i + 8 + size, m2)
    }
}

/// The fields of a file: those of its chunks for a RIFF file of WAVE media,
/// all zero and no samples otherwise.
pub open spec fn spec_from_data(f: Seq<u8>) -> WavFields {
    if tag_at(f, 0, riff()) && tag_at(f, 8, wave()) {
        chunks(f, 12, empty_fields())
    } else {
        empty_fields()
    }
}

/// The byte at `i + k`, or 0 past the end.
fn byte(f: &Vec<u8>, i: usize, k: usize) -> (r: u8)
    requires
        i <= f@.len(),
    ensures
        r == byte_at(f@, i + k),
{
    if k < f.len() - i {
        f[i + k]
    } else {
        0
    }
}

fn word(f: &Vec<u8>, i: usize, k: usize) -> (r: u16)
    requires
        i <= f@.len(),
        k < usize::MAX,
    ensures
        r == word_at(f@, i + k),
{
    let lo = byte(f, i, k) as u16;
    let hi = byte(f, i, k + 1) as u16;
    lo + hi * 256
}

fn dword(f: &Vec<u8>, i: usize, k: usize) -> (r: u32)
    requires
        i <= f@.len(),
        k < usize::MAX - 3,
    ensures
        r == dword_at(f@, i + k),
{
    let b0 = byte(f, i, k) as u32;
    let b1 = byte(f, i, k + 1) as u32;
    let b2 = byte(f, i, k + 2) as u32;
    let b3 = byte(f, i, k + 3) as u32;
    b0 + b1 * 256 + b2 * 65536 + b3 * 16777216
}

fn tag(f: &Vec<u8>, i: usize, t: [u8; 4]) -> (r: bool)
    requires
        i <= f@.len(),
    ensures
        r == tag_at(f@, i as int, t@),
{
    byte(f, i, 0) == t[0] && byte(f, i, 1) == t[1] && byte(f, i, 2) == t[2] && byte(f, i, 3) == t[3]
}

/// Up to `count` bytes from `i + 8`, as many as the file holds.
fn chunk_body(f: &Vec<u8>, i: usize, count: usize) -> (r: Vec<u8>)
    requires
        i <= f@.len(),
    ensures
        r@ == bytes_from(f@, i + 8, count as int),
{
    let len = f.len();
    let s: usize = if 8 < len - i { i + 8 } else { len };
    let e: usize = if count < len - s { s + count } else { len };
    let mut r: Vec<u8> = Vec::new();
    let mut k: usize = s;
    while k < e
        invariant
            s <= k <= e,
            e <= len == f@.len(),
            r@ == f@.subrange(s as int, k as int),
        decreases e - k,
    {
        r.push(f[k]);
        proof {
            assert(f@.subrange(s as int, k + 1) =~= f@.subrange(s as int, k as int).push(f@[k as int]));
        }
        k += 1;
    }
    r
}

impl WAV {
    pub open spec fn fields(&self) -> WavFields {
        (self.channels, self.sample_rate, self.sample_bits, self.data@)
    }

    pub fn new() -> (r: WAV)
        ensures
            r.fields() == empty_fields(),
    {
        WAV { channels: 0, sample_rate: 0, sample_bits: 0, data: Vec::new() }
    }

    /// Parses a RIFF/WAVE file. Bytes past the end read as 0, and what does
    /// not parse is left at its empty value.
    pub fn from_data(file_data: &Vec<u8>) -> (r: WAV)
        ensures
            r.fields() == spec_from_data(file_data@),
    {
        let mut ret = WAV::new();
        let f = file_data;
        let len = f.len();
        if len < 12 || !tag(f, 0, [82u8, 73, 70, 70]) || !tag(f, 8, [87u8, 65, 86, 69]) {
            proof {
                if len < 12 {
                    assert(byte_at(f@, 11) == 0);
                }
            }
            return ret;
        }
        proof {
            assert([82u8, 73, 70, 70]@ == riff());
            assert([87u8, 65, 86, 69]@ == wave());
        }
        let mut i: usize = 12;
        loop
            invariant
                i <= len == f@.len(),
                f@ == file_data@,
                chunks(f@, i as int, ret.fields()) == spec_from_data(f@),
                tag_at(f@, 0, riff()) && tag_at(f@, 8, wave()),
            decreases len - i,
        {
            if len - i <= 4 {
                proof {
                    assert(chunks(f@, i as int, ret.fields()) == ret.fields());
                }
                return ret;
            }
            let size = dword(f, i, 4);
            if size == 0 {
                proof {
                    assert(chunks(f@, i as int, ret.fields()) == ret.fields());
                }
                return ret;
            }
            let ghost before = ret.fields();
            if tag(f, i, [102u8, 109, 116, 32]) {
                proof {
                    assert([102u8, 109, 116, 32]@ == fmt_tag());
                }
                ret.channels = word(f, i, 10);
                ret.sample_rate = dword(f, i, 12);
                ret.sample_bits = word(f, i, 22);
            } else {
                proof {
                    assert([102u8, 109, 116, 32]@ == fmt_tag());
                }
            }
            if tag(f, i, [100u8, 97, 116, 97]) {
                proof {
                    assert([100u8, 97, 116, 97]@ == data_tag());
                }
                ret.data = chunk_body(f, i, size as usize);
            } else {
                proof {
                    assert([100u8, 97, 116, 97]@ == data_tag());
                }
            }
            proof {
                assert(chunks(f@, i as int, before) == chunks(f@, i + 8 + size, ret.fields()));
            }
            if len - i < 8 || (size as usize) >= len - i - 8 {
                proof {
                    let n = i + 8 + size;
                    assert(n + 4 >= f@.len());
                    assert(chunks(f@, n, ret.fields()) == ret.fields());
                }
                return ret;
            }
            i = i + 8 + size as usize;
        }
    }
}

} // verus!
