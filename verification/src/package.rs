//! `.opk` — the OS101 package format.
//!
//! One installable app is one file: a fixed header, a text manifest, and an
//! ELF payload.
//!
//! ```text
//! offset  size  field
//!      0     8  magic "OS101PKG"
//!      8     2  format version (u16 LE)
//!     10     2  flags (u16 LE, reserved, must be 0)
//!     12     4  manifest length (u32 LE)
//!     16     4  payload length (u32 LE)
//!     20     4  payload CRC-32 (u32 LE)
//!     24     …  manifest: UTF-8 `key = value` lines
//!      …     …  payload: ELF64 executable
//! ```
//!
//! Everything in here reads untrusted input, so every length is held against a
//! ceiling before it is used.

use vstd::prelude::*;
use vstd::slice::*;
use vstd::string::*;
use vstd::utf8::*;

use crate::text;

verus! {

pub const MAGIC: [u8; 8] = [79, 83, 49, 48, 49, 80, 75, 71];

pub const FORMAT_VERSION: u16 = 1;

pub const HEADER_LEN: usize = 24;

/// Ceilings for untrusted package fields.
pub const MAX_MANIFEST_LEN: usize = 4096;

pub const MAX_PAYLOAD_LEN: usize = 4194304;

pub const MAX_NAME_LEN: usize = 32;

pub const MAX_FIELD_LEN: usize = 128;

/// A validated package, ready to install.
#[derive(Debug)]
pub struct Package {
    pub name: String,
    pub version: String,
    pub description: String,
    /// Icon hint; the launcher falls back to a generic icon if unknown.
    pub icon: String,
    pub payload: Vec<u8>,
}

/// What a package holds.
pub ghost struct PackageView {
    pub name: Seq<char>,
    pub version: Seq<char>,
    pub description: Seq<char>,
    pub icon: Seq<char>,
    pub payload: Seq<u8>,
}

impl View for Package {
    type V = PackageView;

    open spec fn view(&self) -> PackageView {
        PackageView {
            name: self.name@,
            version: self.version@,
            description: self.description@,
            icon: self.icon@,
            payload: self.payload@,
        }
    }
}

// ── Names ───────────────────────────────────────────────────────────────────

pub open spec fn name_char(c: char) -> bool {
    text::ascii_alphanumeric(c) || c == '-' || c == '_' || c == ' '
}

/// One to 32 letters, digits, `-`, `_` and spaces.
pub open spec fn valid_name(s: Seq<char>) -> bool {
    &&& 0 < s.len() <= MAX_NAME_LEN
    &&& forall|i: int| 0 <= i < s.len() ==> name_char(#[trigger] s[i])
}

/// A package name is used as a file name and shown on screen, so it is
/// restricted rather than cleaned up later.
pub fn is_valid_name(name: &str) -> (r: bool)
    ensures
        r == valid_name(name@),
{
    let v = text::chars_of(name);
    let mut i: usize = 0;
    while i < v.len()
        invariant
            i <= v@.len(),
            v@ == name@,
            forall|j: int| 0 <= j < i ==> name_char(#[trigger] v@[j]),
        decreases v@.len() - i,
    {
        let c = v[i];
        if !(text::is_ascii_alphanumeric(c) || c == '-' || c == '_' || c == ' ') {
            assert(!name_char(name@[i as int]));
            return false;
        }
        i = i + 1;
    }
    v.len() > 0 && v.len() <= MAX_NAME_LEN
}

/// A slug while it is being built: a run of characters that are no letters or
/// digits becomes one dash, and none stands at the beginning.
pub open spec fn dashed(s: Seq<char>) -> Seq<char>
    decreases s.len(),
{
    if s.len() == 0 {
        Seq::empty()
    } else {
        let before = dashed(s.drop_last());
        if text::ascii_alphanumeric(s.last()) {
            before.push(text::lower(s.last()))
        } else if before.len() > 0 && before.last() != '-' {
            before.push('-')
        } else {
            before
        }
    }
}

/// The lower-case, `-`-separated form of a name; `app` if nothing is left.
pub open spec fn slug(s: Seq<char>) -> Seq<char> {
    let t = text::trim_end_of(dashed(s), '-');
    if t.len() == 0 {
        "app"@
    } else {
        t
    }
}

/// Lower-case, `-`-separated form of a name, for use as a file name.
pub fn slugify(name: &str) -> (r: String)
    ensures
        r@ == slug(name@),
{
    let v = text::chars_of(name);
    let mut out = String::new();
    let mut last_dash = true;
    let mut i: usize = 0;
    assert(v@.take(0) =~= Seq::<char>::empty());
    while i < v.len()
        invariant
            i <= v@.len(),
            v@ == name@,
            out@ == dashed(v@.take(i as int)),
            last_dash == (out@.len() == 0 || out@.last() == '-'),
        decreases v@.len() - i,
    {
        let c = v[i];
        proof {
            let t = v@.take(i + 1);
            assert(t.drop_last() =~= v@.take(i as int));
            assert(t.last() == c);
        }
        if text::is_ascii_alphanumeric(c) {
            out.push(text::to_lower(c));
            last_dash = false;
        } else if !last_dash {
            out.push('-');
            last_dash = true;
        }
        i = i + 1;
    }
    assert(v@.take(i as int) =~= v@);
    let r = text::trim_end_matches(out.as_str(), '-');
    if r.as_str().is_empty() {
        String::from_str("app")
    } else {
        r
    }
}

pub open spec fn slug_char(c: char) -> bool {
    text::ascii_digit(c) || text::ascii_lower(c) || c == '-'
}

proof fn dashed_chars(s: Seq<char>)
    ensures
        forall|i: int| 0 <= i < dashed(s).len() ==> slug_char(#[trigger] dashed(s)[i]),
        dashed(s).len() > 0 ==> dashed(s)[0] != '-',
    decreases s.len(),
{
    if s.len() > 0 {
        dashed_chars(s.drop_last());
    }
}

proof fn trim_end_of_prefix(s: Seq<char>, d: char)
    ensures
        text::trim_end_of(s, d).len() <= s.len(),
        text::trim_end_of(s, d) == s.take(text::trim_end_of(s, d).len() as int),
        text::trim_end_of(s, d).len() > 0 ==> text::trim_end_of(s, d).last() != d,
    decreases s.len(),
{
    if s.len() > 0 && s.last() == d {
        trim_end_of_prefix(s.drop_last(), d);
        let n = text::trim_end_of(s, d).len() as int;
        assert(s.drop_last().take(n) =~= s.take(n));
    } else {
        assert(s.take(s.len() as int) =~= s);
    }
}

/// A slug is a safe file name: it is never empty, holds nothing but lower-case
/// letters, digits and dashes, and neither begins nor ends with a dash.
pub proof fn slug_is_a_safe_file_name(s: Seq<char>)
    ensures
        slug(s).len() > 0,
        forall|i: int| 0 <= i < slug(s).len() ==> slug_char(#[trigger] slug(s)[i]),
        slug(s)[0] != '-',
        slug(s).last() != '-',
{
    dashed_chars(s);
    trim_end_of_prefix(dashed(s), '-');
    reveal_strlit("app");
}

// ── Checksum and header fields ──────────────────────────────────────────────

/// One step of the reflected CRC-32 (IEEE 802.3) shift register.
pub open spec fn crc_bit(crc: u32) -> u32 {
    if crc & 1 == 1 {
        (crc >> 1) ^ 0xEDB8_8320
    } else {
        crc >> 1
    }
}

pub open spec fn crc_bits(crc: u32, n: nat) -> u32
    decreases n,
{
    if n == 0 {
        crc
    } else {
        crc_bit(crc_bits(crc, (n - 1) as nat))
    }
}

/// The register after `data`, started from all ones.
pub open spec fn crc_register(data: Seq<u8>) -> u32
    decreases data.len(),
{
    if data.len() == 0 {
        0xFFFF_FFFF
    } else {
        crc_bits(crc_register(data.drop_last()) ^ (data.last() as u32), 8)
    }
}

pub open spec fn checksum(data: Seq<u8>) -> u32 {
    !crc_register(data)
}

/// CRC-32 (IEEE 802.3, reflected) computed bitwise.
pub fn crc32(data: &[u8]) -> (r: u32)
    ensures
        r == checksum(data@),
{
    let mut crc: u32 = 0xFFFF_FFFF;
    let mut i: usize = 0;
    assert(data@.take(0) =~= Seq::<u8>::empty());
    while i < data.len()
        invariant
            i <= data@.len(),
            crc == crc_register(data@.take(i as int)),
        decreases data@.len() - i,
    {
        let start: u32 = crc ^ (data[i] as u32);
        crc = start;
        let mut k: usize = 0;
        while k < 8
            invariant
                k <= 8,
                crc == crc_bits(start, k as nat),
            decreases 8 - k,
        {
            crc = if crc & 1 == 1 {
                (crc >> 1) ^ 0xEDB8_8320
            } else {
                crc >> 1
            };
            k = k + 1;
        }
        assert(data@.take(i + 1).drop_last() =~= data@.take(i as int));
        i = i + 1;
    }
    assert(data@.take(i as int) =~= data@);
    !crc
}

/// A step of the register can be undone: the bit that leaves decides the top
/// bit of the result.
proof fn crc_bit_is_one_to_one(a: u32, b: u32)
    requires
        crc_bit(a) == crc_bit(b),
    ensures
        a == b,
{
    assert((if a & 1 == 1 {
        (a >> 1) ^ 0xEDB8_8320
    } else {
        a >> 1
    }) == (if b & 1 == 1 {
        (b >> 1) ^ 0xEDB8_8320
    } else {
        b >> 1
    }) ==> a == b) by (bit_vector);
}

proof fn crc_bits_are_one_to_one(a: u32, b: u32, n: nat)
    requires
        crc_bits(a, n) == crc_bits(b, n),
    ensures
        a == b,
    decreases n,
{
    if n > 0 {
        let k = (n - 1) as nat;
        crc_bit_is_one_to_one(crc_bits(a, k), crc_bits(b, k));
        crc_bits_are_one_to_one(a, b, k);
    }
}

proof fn crc_bits_are_linear(a: u32, b: u32, n: nat)
    ensures
        crc_bits(a ^ b, n) == crc_bits(a, n) ^ crc_bits(b, n),
    decreases n,
{
    if n > 0 {
        let k = (n - 1) as nat;
        crc_bits_are_linear(a, b, k);
        let x = crc_bits(a, k);
        let y = crc_bits(b, k);
        assert((if (x ^ y) & 1 == 1 {
            ((x ^ y) >> 1) ^ 0xEDB8_8320
        } else {
            (x ^ y) >> 1
        }) == (if x & 1 == 1 {
            (x >> 1) ^ 0xEDB8_8320
        } else {
            x >> 1
        }) ^ (if y & 1 == 1 {
            (y >> 1) ^ 0xEDB8_8320
        } else {
            y >> 1
        })) by (bit_vector);
    }
}

/// Three texts of one length, added up bit by bit.
pub open spec fn added_up(a: Seq<u8>, b: Seq<u8>, c: Seq<u8>) -> Seq<u8> {
    Seq::new(a.len(), |i: int| a[i] ^ b[i] ^ c[i])
}

/// The checksum is linear: that of three texts of one length added up bit by
/// bit is what their checksums add up to.
pub proof fn checksums_add_up(a: Seq<u8>, b: Seq<u8>, c: Seq<u8>)
    requires
        a.len() == b.len() == c.len(),
    ensures
        checksum(a) ^ checksum(b) ^ checksum(c) == checksum(added_up(a, b, c)),
{
    registers_add_up(a, b, c);
    let x = crc_register(a);
    let y = crc_register(b);
    let z = crc_register(c);
    assert((!x) ^ (!y) ^ (!z) == !(x ^ y ^ z)) by (bit_vector);
}

proof fn registers_add_up(a: Seq<u8>, b: Seq<u8>, c: Seq<u8>)
    requires
        a.len() == b.len() == c.len(),
    ensures
        crc_register(a) ^ crc_register(b) ^ crc_register(c) == crc_register(added_up(a, b, c)),
    decreases a.len(),
{
    if a.len() == 0 {
        assert(0xFFFF_FFFFu32 ^ 0xFFFF_FFFFu32 ^ 0xFFFF_FFFFu32 == 0xFFFF_FFFFu32) by (bit_vector);
    } else {
        registers_add_up(a.drop_last(), b.drop_last(), c.drop_last());
        assert(added_up(a, b, c).drop_last() =~= added_up(
            a.drop_last(),
            b.drop_last(),
            c.drop_last(),
        ));
        let (x, y, z) = (a.last(), b.last(), c.last());
        let r = crc_register(a.drop_last());
        let s = crc_register(b.drop_last());
        let t = crc_register(c.drop_last());
        let (u, v, w) = (r ^ (x as u32), s ^ (y as u32), t ^ (z as u32));
        crc_bits_are_linear(u ^ v, w, 8);
        crc_bits_are_linear(u, v, 8);
        assert((r ^ (x as u32)) ^ (s ^ (y as u32)) ^ (t ^ (z as u32)) == (r ^ s ^ t) ^ ((x ^ y
            ^ z) as u32)) by (bit_vector);
    }
}

/// A register with eight zero bits at its end is only shifted.
proof fn crc_bits_shift(v: u32, n: nat)
    requires
        n <= 8,
    ensures
        crc_bits(v << 8, n) == (v << 8) >> (n as u32),
    decreases n,
{
    if n > 0 {
        let k = (n - 1) as u32;
        crc_bits_shift(v, k as nat);
        assert(k < 8 ==> ((v << 8) >> k) & 1 == 0 && ((v << 8) >> k) >> 1 == (v << 8) >> ((k + 1)
            as u32)) by (bit_vector);
    } else {
        assert((v << 8) >> 0 == v << 8) by (bit_vector);
    }
}

/// How far two registers can lie apart without the last `k` bytes that went in
/// being to blame.
spec fn narrow(w: u32, k: int) -> bool {
    &&& k >= 1 ==> w < 0x100_0000
    &&& k >= 2 ==> w < 0x1_0000
    &&& k >= 3 ==> w < 0x100
    &&& k >= 4 ==> w == 0
}

/// Two texts that are alike up to `i`: where their registers lie no further
/// apart `k` bytes later, these bytes are alike too.
proof fn narrow_means_alike(a: Seq<u8>, b: Seq<u8>, i: int, k: int)
    requires
        0 <= i <= i + k <= a.len(),
        a.len() == b.len(),
        0 <= k <= 4,
        a.take(i) == b.take(i),
        narrow(crc_register(a.take(i + k)) ^ crc_register(b.take(i + k)), k),
    ensures
        a.take(i + k) == b.take(i + k),
    decreases k,
{
    if k > 0 {
        let p = a.take(i + k);
        let q = b.take(i + k);
        assert(p.drop_last() =~= a.take(i + k - 1));
        assert(q.drop_last() =~= b.take(i + k - 1));
        let r = crc_register(p.drop_last());
        let s = crc_register(q.drop_last());
        let (x, y) = (p.last(), q.last());
        let w = crc_register(p) ^ crc_register(q);
        let d = (r ^ (x as u32)) ^ (s ^ (y as u32));
        crc_bits_are_linear(r ^ (x as u32), s ^ (y as u32), 8);
        assert(w == crc_bits(d, 8));
        crc_bits_shift(w, 8);
        assert(w < 0x100_0000 ==> (w << 8) >> 8 == w) by (bit_vector);
        crc_bits_are_one_to_one(d, w << 8, 8);
        assert((r ^ (x as u32)) ^ (s ^ (y as u32)) == w << 8 && w < 0x100_0000 ==> {
            &&& w < 0x1_0000 ==> r ^ s < 0x100_0000
            &&& w < 0x100 ==> r ^ s < 0x1_0000
            &&& w == 0 ==> r ^ s < 0x100
            &&& r == s ==> x == y
        }) by (bit_vector);
        narrow_means_alike(a, b, i, k - 1);
        assert(p =~= q) by {
            assert(p.drop_last() == q.drop_last());
            assert(p =~= p.drop_last().push(x));
            assert(q =~= q.drop_last().push(y));
        }
    }
}

/// Texts that end alike have the same register only where they had it before.
proof fn alike_endings(a: Seq<u8>, b: Seq<u8>, m: int)
    requires
        a.len() == b.len(),
        0 <= m <= a.len(),
        forall|j: int| m <= j < a.len() ==> a[j] == b[j],
        crc_register(a) == crc_register(b),
    ensures
        crc_register(a.take(m)) == crc_register(b.take(m)),
    decreases a.len() - m,
{
    if m < a.len() {
        let r = crc_register(a.drop_last());
        let s = crc_register(b.drop_last());
        let x = a.last() as u32;
        crc_bits_are_one_to_one(r ^ x, s ^ x, 8);
        assert(r ^ x == s ^ x ==> r == s) by (bit_vector);
        alike_endings(a.drop_last(), b.drop_last(), m);
        assert(a.drop_last().take(m) =~= a.take(m));
        assert(b.drop_last().take(m) =~= b.take(m));
    } else {
        assert(a.take(m) =~= a);
        assert(b.take(m) =~= b);
    }
}

/// Any damage within four consecutive bytes changes the checksum.
pub proof fn a_damaged_run_changes_the_checksum(data: Seq<u8>, bad: Seq<u8>, i: int)
    requires
        data.len() == bad.len(),
        data != bad,
        0 <= i <= data.len(),
        forall|j: int| 0 <= j < data.len() && !(i <= j < i + 4) ==> data[j] == bad[j],
    ensures
        checksum(bad) != checksum(data),
{
    let m = if i + 4 <= data.len() {
        i + 4
    } else {
        data.len() as int
    };
    let x = crc_register(bad);
    let y = crc_register(data);
    assert(!x == !y ==> x == y) by (bit_vector);
    if x == y {
        alike_endings(data, bad, m);
        let r = crc_register(data.take(m));
        assert(r ^ r == 0) by (bit_vector);
        assert(data.take(i) =~= bad.take(i));
        narrow_means_alike(data, bad, i, m - i);
        assert forall|j: int| 0 <= j < data.len() implies data[j] == bad[j] by {
            if j < m {
                assert(data.take(m)[j] == bad.take(m)[j]);
            }
        }
        assert(data =~= bad);
    }
}

/// One damaged byte always changes the checksum.
pub proof fn a_damaged_byte_changes_the_checksum(data: Seq<u8>, i: int, byte: u8)
    requires
        0 <= i < data.len(),
        byte != data[i],
    ensures
        checksum(data.update(i, byte)) != checksum(data),
{
    assert(data.update(i, byte)[i] != data[i]);
    a_damaged_run_changes_the_checksum(data, data.update(i, byte), i);
}

pub open spec fn le16(b: Seq<u8>, at: int) -> int {
    b[at] + 0x100 * b[at + 1]
}

pub open spec fn le32(b: Seq<u8>, at: int) -> int {
    b[at] + 0x100 * b[at + 1] + 0x1_0000 * b[at + 2] + 0x100_0000 * b[at + 3]
}

fn read_u16(bytes: &[u8], at: usize) -> (r: u16)
    requires
        at + 2 <= bytes@.len(),
    ensures
        r == le16(bytes@, at as int),
{
    bytes[at] as u16 + 0x100 * (bytes[at + 1] as u16)
}

fn read_u32(bytes: &[u8], at: usize) -> (r: u32)
    requires
        at + 4 <= bytes@.len(),
    ensures
        r == le32(bytes@, at as int),
{
    bytes[at] as u32 + 0x100 * (bytes[at + 1] as u32) + 0x1_0000 * (bytes[at + 2] as u32)
        + 0x100_0000 * (bytes[at + 3] as u32)
}

pub open spec fn bytes16(n: int) -> Seq<u8> {
    seq![(n % 0x100) as u8, (n / 0x100 % 0x100) as u8]
}

pub open spec fn bytes32(n: int) -> Seq<u8> {
    seq![
        (n % 0x100) as u8,
        (n / 0x100 % 0x100) as u8,
        (n / 0x1_0000 % 0x100) as u8,
        (n / 0x100_0000 % 0x100) as u8,
    ]
}

fn push_u16(out: &mut Vec<u8>, n: u16)
    ensures
        final(out)@ == old(out)@ + bytes16(n as int),
{
    out.push((n % 0x100) as u8);
    out.push((n / 0x100 % 0x100) as u8);
    assert(out@ =~= old(out)@ + bytes16(n as int));
}

fn push_u32(out: &mut Vec<u8>, n: u32)
    ensures
        final(out)@ == old(out)@ + bytes32(n as int),
{
    out.push((n % 0x100) as u8);
    out.push((n / 0x100 % 0x100) as u8);
    out.push((n / 0x1_0000 % 0x100) as u8);
    out.push((n / 0x100_0000 % 0x100) as u8);
    assert(out@ =~= old(out)@ + bytes32(n as int));
}

// ── Manifest ────────────────────────────────────────────────────────────────

/// The field a manifest line holds, if it holds one: `key = value`, with the
/// key in lower case and the value cut to 128 bytes. A blank line, a comment
/// and a line without `=` hold none.
pub open spec fn line_field(raw: Seq<char>) -> Seq<(Seq<char>, Seq<char>)> {
    let line = text::trimmed(raw);
    let eq = text::find(line, '=');
    if line.len() == 0 || line[0] == '#' || eq >= line.len() {
        Seq::empty()
    } else {
        seq![
            (
                text::lowered(text::trimmed(line.take(eq))),
                text::clipped(text::trimmed(line.skip(eq + 1)), MAX_FIELD_LEN as int),
            ),
        ]
    }
}

pub open spec fn line_fields(lines: Seq<Seq<char>>) -> Seq<(Seq<char>, Seq<char>)>
    decreases lines.len(),
{
    if lines.len() == 0 {
        Seq::empty()
    } else {
        line_fields(lines.drop_last()) + line_field(lines.last())
    }
}

/// The fields of a manifest, in order.
pub open spec fn manifest_fields(text: Seq<char>) -> Seq<(Seq<char>, Seq<char>)> {
    line_fields(text::split(text, '\n'))
}

pub open spec fn fields_view(v: Seq<(String, String)>) -> Seq<(Seq<char>, Seq<char>)> {
    v.map_values(|f: (String, String)| (f.0@, f.1@))
}

/// `key = value` lines; `#` starts a comment.
fn parse_manifest(text: &str) -> (out: Vec<(String, String)>)
    ensures
        fields_view(out@) == manifest_fields(text@),
{
    let lines = text::split_text(text, '\n');
    let mut out: Vec<(String, String)> = Vec::new();
    let mut i: usize = 0;
    let ghost all = text::strings(lines@);
    assert(all.take(0) =~= Seq::<Seq<char>>::empty());
    while i < lines.len()
        invariant
            i <= lines@.len(),
            all == text::strings(lines@),
            fields_view(out@) =~= line_fields(all.take(i as int)),
        decreases lines@.len() - i,
    {
        proof {
            let t = all.take(i + 1);
            assert(t.drop_last() =~= all.take(i as int));
            assert(t.last() == lines@[i as int]@);
        }
        let line = text::trim(lines[i].as_str());
        let v = text::chars_of(line.as_str());
        let eq: usize = text::find_char(v.as_slice(), '=');
        if v.len() > 0 && v[0] != '#' && eq < v.len() {
            let k = text::string_between(v.as_slice(), 0, eq);
            let w = text::string_between(v.as_slice(), eq + 1, v.len());
            assert(k@ =~= line@.take(eq as int));
            assert(w@ =~= line@.skip(eq + 1));
            let key = text::lowercase(text::trim(k.as_str()).as_str());
            let value = text::clip(text::trim(w.as_str()).as_str(), MAX_FIELD_LEN);
            let ghost before = out@;
            let ghost field = (key@, value@);
            out.push((key, value));
            assert(fields_view(out@) =~= fields_view(before).push(field));
        }
        i = i + 1;
    }
    assert(all.take(i as int) =~= all);
    out
}

/// The value of the first field with this key.
pub open spec fn lookup(fields: Seq<(Seq<char>, Seq<char>)>, key: Seq<char>) -> Option<Seq<char>>
    decreases fields.len(),
{
    if fields.len() == 0 {
        None
    } else if fields[0].0 == key {
        Some(fields[0].1)
    } else {
        lookup(fields.skip(1), key)
    }
}

pub open spec fn lookup_or(
    fields: Seq<(Seq<char>, Seq<char>)>,
    key: Seq<char>,
    default: Seq<char>,
) -> Seq<char> {
    match lookup(fields, key) {
        Some(v) => v,
        None => default,
    }
}

fn find_field(fields: &Vec<(String, String)>, key: &str) -> (r: Option<String>)
    ensures
        match r {
            Some(s) => lookup(fields_view(fields@), key@) == Some(s@),
            None => lookup(fields_view(fields@), key@) is None,
        },
{
    let mut i: usize = 0;
    let ghost all = fields_view(fields@);
    assert(all.skip(0) =~= all);
    while i < fields.len()
        invariant
            i <= fields@.len(),
            all == fields_view(fields@),
            lookup(all, key@) == lookup(all.skip(i as int), key@),
        decreases fields@.len() - i,
    {
        assert(all.skip(i as int)[0] == (fields@[i as int].0@, fields@[i as int].1@));
        if text::same(fields[i].0.as_str(), key) {
            return Some(fields[i].1.clone());
        }
        assert(all.skip(i as int).skip(1) =~= all.skip(i + 1));
        i = i + 1;
    }
    None
}

fn field_or(fields: &Vec<(String, String)>, key: &str, default: &str) -> (r: String)
    ensures
        r@ == lookup_or(fields_view(fields@), key@, default@),
{
    match find_field(fields, key) {
        Some(s) => s,
        None => default.to_owned(),
    }
}

// ── Reading and writing ─────────────────────────────────────────────────────

/// Why a payload is refused: it has to be an x86-64, little-endian, 64-bit ELF
/// image of type `ET_EXEC` or `ET_DYN`.
pub open spec fn elf_error(p: Seq<u8>) -> Option<Seq<char>> {
    if p.len() < 64 || p[0] != 0x7F || p[1] != 0x45 || p[2] != 0x4C || p[3] != 0x46 {
        Some("payload is not an ELF executable"@)
    } else if p[4] != 2 {
        Some("payload is not 64-bit"@)
    } else if p[5] != 1 {
        Some("payload is not little-endian"@)
    } else if le16(p, 18) != 0x3E {
        Some("payload is not an x86-64 binary"@)
    } else if le16(p, 16) != 2 && le16(p, 16) != 3 {
        Some("payload is not an executable image"@)
    } else {
        None
    }
}

/// Minimal ELF sanity check, so obviously wrong payloads are refused at
/// install time rather than faulting the loader later.
fn validate_elf(payload: &[u8]) -> (r: Result<(), &'static str>)
    ensures
        match r {
            Ok(_) => elf_error(payload@) is None,
            Err(e) => elf_error(payload@) == Some(e@),
        },
{
    if payload.len() < 64 || payload[0] != 0x7F || payload[1] != 0x45 || payload[2] != 0x4C
        || payload[3] != 0x46 {
        return Err("payload is not an ELF executable");
    }
    if payload[4] != 2 {
        return Err("payload is not 64-bit");
    }
    if payload[5] != 1 {
        return Err("payload is not little-endian");
    }
    if read_u16(payload, 18) != 0x3E {
        return Err("payload is not an x86-64 binary");
    }
    let e_type: u16 = read_u16(payload, 16);
    if e_type != 2 && e_type != 3 {
        return Err("payload is not an executable image");
    }
    Ok(())
}

/// What a manifest and a payload that arrived whole amount to.
pub open spec fn contents(manifest: Seq<char>, payload: Seq<u8>) -> Result<
    PackageView,
    Seq<char>,
> {
    let fields = manifest_fields(manifest);
    match lookup(fields, "name"@) {
        None => Err("package manifest has no `name`"@),
        Some(name) => if !valid_name(name) {
            Err("package name has invalid characters"@)
        } else {
            match elf_error(payload) {
                Some(e) => Err(e),
                None => Ok(
                    PackageView {
                        name,
                        version: lookup_or(fields, "version"@, "0.0.0"@),
                        description: lookup_or(fields, "description"@, ""@),
                        icon: lookup_or(fields, "icon"@, ""@),
                        payload,
                    },
                ),
            }
        },
    }
}

/// What a `.opk` image amounts to: the package, or the first thing wrong
/// with it.
pub open spec fn reading(b: Seq<u8>) -> Result<PackageView, Seq<char>> {
    if b.len() < HEADER_LEN {
        Err("not a package: too short"@)
    } else if b.take(8) != MAGIC@ {
        Err("not a package: bad magic"@)
    } else if le16(b, 8) != FORMAT_VERSION {
        Err("unsupported package format version"@)
    } else if le16(b, 10) != 0 {
        Err("unsupported package flags"@)
    } else if le32(b, 12) > MAX_MANIFEST_LEN {
        Err("package manifest too large"@)
    } else if le32(b, 16) > MAX_PAYLOAD_LEN {
        Err("package payload too large"@)
    } else if b.len() < HEADER_LEN + le32(b, 12) + le32(b, 16) {
        Err("package truncated"@)
    } else {
        let split = HEADER_LEN + le32(b, 12);
        let manifest = b.subrange(HEADER_LEN as int, split);
        let payload = b.subrange(split, split + le32(b, 16));
        if checksum(payload) != le32(b, 20) {
            Err("package payload checksum mismatch"@)
        } else if !valid_utf8(manifest) {
            Err("package manifest is not valid UTF-8"@)
        } else {
            contents(decode_utf8(manifest), payload)
        }
    }
}

fn has_magic(bytes: &[u8]) -> (r: bool)
    requires
        bytes@.len() >= 8,
    ensures
        r == (bytes@.take(8) == MAGIC@),
{
    let magic = MAGIC;
    let mut i: usize = 0;
    while i < 8
        invariant
            i <= 8,
            bytes@.len() >= 8,
            magic@ == MAGIC@,
            forall|j: int| 0 <= j < i ==> bytes@[j] == magic@[j],
        decreases 8 - i,
    {
        if bytes[i] != magic[i] {
            assert(bytes@.take(8)[i as int] != MAGIC@[i as int]);
            return false;
        }
        i = i + 1;
    }
    assert(bytes@.take(8) =~= MAGIC@);
    true
}

/// Parse and fully validate a `.opk` image.
pub fn parse(bytes: &[u8]) -> (r: Result<Package, &'static str>)
    ensures
        match r {
            Ok(p) => reading(bytes@) == Ok::<PackageView, Seq<char>>(p@),
            Err(e) => reading(bytes@) == Err::<PackageView, Seq<char>>(e@),
        },
{
    if bytes.len() < HEADER_LEN {
        return Err("not a package: too short");
    }
    if !has_magic(bytes) {
        return Err("not a package: bad magic");
    }
    if read_u16(bytes, 8) != FORMAT_VERSION {
        return Err("unsupported package format version");
    }
    if read_u16(bytes, 10) != 0 {
        return Err("unsupported package flags");
    }
    let manifest_len: usize = read_u32(bytes, 12) as usize;
    let payload_len: usize = read_u32(bytes, 16) as usize;
    let expected_crc: u32 = read_u32(bytes, 20);
    if manifest_len > MAX_MANIFEST_LEN {
        return Err("package manifest too large");
    }
    if payload_len > MAX_PAYLOAD_LEN {
        return Err("package payload too large");
    }
    let split: usize = HEADER_LEN + manifest_len;
    let total: usize = split + payload_len;
    if bytes.len() < total {
        return Err("package truncated");
    }
    let manifest_bytes = slice_subrange(bytes, HEADER_LEN, split);
    let payload = slice_subrange(bytes, split, total);
    if crc32(payload) != expected_crc {
        return Err("package payload checksum mismatch");
    }
    let manifest = match text::decode_text(manifest_bytes) {
        Some(s) => s,
        None => {
            return Err("package manifest is not valid UTF-8");
        },
    };
    let fields = parse_manifest(manifest.as_str());
    let name = match find_field(&fields, "name") {
        Some(s) => s,
        None => {
            return Err("package manifest has no `name`");
        },
    };
    if !is_valid_name(name.as_str()) {
        return Err("package name has invalid characters");
    }
    match validate_elf(payload) {
        Ok(_) => {},
        Err(e) => {
            return Err(e);
        },
    }
    Ok(
        Package {
            name,
            version: field_or(&fields, "version", "0.0.0"),
            description: field_or(&fields, "description", ""),
            icon: field_or(&fields, "icon", ""),
            payload: slice_to_vec(payload),
        },
    )
}

/// The 24 bytes in front of a manifest and a payload.
pub open spec fn header(manifest_len: int, payload_len: int, crc: int) -> Seq<u8> {
    MAGIC@ + bytes16(FORMAT_VERSION as int) + bytes16(0) + bytes32(manifest_len) + bytes32(
        payload_len,
    ) + bytes32(crc)
}

/// The image a manifest and a payload are written as.
pub open spec fn image(manifest: Seq<u8>, payload: Seq<u8>) -> Seq<u8> {
    header(
        manifest.len() as int % 0x1_0000_0000,
        payload.len() as int % 0x1_0000_0000,
        checksum(payload) as int,
    ) + manifest + payload
}

fn push_bytes(out: &mut Vec<u8>, bytes: &[u8])
    ensures
        final(out)@ == old(out)@ + bytes@,
{
    let mut i: usize = 0;
    while i < bytes.len()
        invariant
            i <= bytes@.len(),
            out@ =~= old(out)@ + bytes@.take(i as int),
        decreases bytes@.len() - i,
    {
        out.push(bytes[i]);
        i = i + 1;
    }
    assert(bytes@.take(i as int) =~= bytes@);
}

/// Assemble a `.opk` image. Used by the in-OS packager and by host tooling.
pub fn build(manifest: &str, payload: &[u8]) -> (out: Vec<u8>)
    ensures
        out@ == image(encode_utf8(manifest@), payload@),
{
    let manifest_bytes = manifest.as_bytes();
    let mut out: Vec<u8> = Vec::new();
    let magic = MAGIC;
    push_bytes(&mut out, magic.as_slice());
    push_u16(&mut out, FORMAT_VERSION);
    push_u16(&mut out, 0);
    push_u32(&mut out, (manifest_bytes.len() as u64 % 0x1_0000_0000) as u32);
    push_u32(&mut out, (payload.len() as u64 % 0x1_0000_0000) as u32);
    push_u32(&mut out, crc32(payload));
    push_bytes(&mut out, manifest_bytes);
    push_bytes(&mut out, payload);
    assert(out@ =~= image(encode_utf8(manifest@), payload@));
    out
}

proof fn le32_of_bytes32(n: int)
    requires
        0 <= n < 0x1_0000_0000,
    ensures
        le32(bytes32(n), 0) == n,
{
}

proof fn le32_within(s: Seq<u8>, at: int, field: Seq<u8>)
    requires
        0 <= at <= s.len() - 4,
        s.subrange(at, at + 4) == field,
    ensures
        le32(s, at) == le32(field, 0),
{
    assert(field[0] == s[at] && field[1] == s[at + 1] && field[2] == s[at + 2] && field[3] == s[at
        + 3]);
}

proof fn header_fields(manifest_len: int, payload_len: int, crc: int)
    requires
        0 <= manifest_len < 0x1_0000_0000,
        0 <= payload_len < 0x1_0000_0000,
        0 <= crc < 0x1_0000_0000,
    ensures
        header(manifest_len, payload_len, crc).len() == HEADER_LEN,
        header(manifest_len, payload_len, crc).take(8) == MAGIC@,
        le16(header(manifest_len, payload_len, crc), 8) == FORMAT_VERSION,
        le16(header(manifest_len, payload_len, crc), 10) == 0,
        le32(header(manifest_len, payload_len, crc), 12) == manifest_len,
        le32(header(manifest_len, payload_len, crc), 16) == payload_len,
        le32(header(manifest_len, payload_len, crc), 20) == crc,
{
    let h = header(manifest_len, payload_len, crc);
    assert(h.take(8) =~= MAGIC@);
    assert(h[8] == 1 && h[9] == 0 && h[10] == 0 && h[11] == 0);
    assert(h.subrange(12, 16) =~= bytes32(manifest_len));
    assert(h.subrange(16, 20) =~= bytes32(payload_len));
    assert(h.subrange(20, 24) =~= bytes32(crc));
    le32_within(h, 12, bytes32(manifest_len));
    le32_within(h, 16, bytes32(payload_len));
    le32_within(h, 20, bytes32(crc));
    le32_of_bytes32(manifest_len);
    le32_of_bytes32(payload_len);
    le32_of_bytes32(crc);
}

#[verifier::spinoff_prover]
#[verifier::rlimit(60)]
proof fn image_parts(m: Seq<u8>, payload: Seq<u8>)
    requires
        m.len() <= MAX_MANIFEST_LEN,
        payload.len() <= MAX_PAYLOAD_LEN,
    ensures
        ({
            let b = image(m, payload);
            &&& b.len() == HEADER_LEN + m.len() + payload.len()
            &&& b.take(8) == MAGIC@
            &&& le16(b, 8) == FORMAT_VERSION
            &&& le16(b, 10) == 0
            &&& le32(b, 12) == m.len()
            &&& le32(b, 16) == payload.len()
            &&& le32(b, 20) == checksum(payload)
            &&& b.subrange(24, 24int + m.len()) == m
            &&& b.subrange(24int + m.len(), 24int + m.len() + payload.len()) == payload
        }),
{
    let b = image(m, payload);
    let h = header(m.len() as int, payload.len() as int, checksum(payload) as int);
    header_fields(m.len() as int, payload.len() as int, checksum(payload) as int);
    assert(b =~= h + m + payload);
    assert(b.take(8) =~= h.take(8));
    assert(b.subrange(12, 16) =~= h.subrange(12, 16));
    assert(b.subrange(16, 20) =~= h.subrange(16, 20));
    assert(b.subrange(20, 24) =~= h.subrange(20, 24));
    le32_within(b, 12, h.subrange(12, 16));
    le32_within(b, 16, h.subrange(16, 20));
    le32_within(b, 20, h.subrange(20, 24));
    le32_within(h, 12, h.subrange(12, 16));
    le32_within(h, 16, h.subrange(16, 20));
    le32_within(h, 20, h.subrange(20, 24));
    assert(b.subrange(24, 24int + m.len()) =~= m);
    assert(b.subrange(24int + m.len(), 24int + m.len() + payload.len()) =~= payload);
}

/// Reading back a written package gives what was written: within the ceilings,
/// the image of a manifest and a payload is read as exactly those two.
pub proof fn build_then_parse(manifest: Seq<char>, payload: Seq<u8>)
    requires
        text::byte_len(manifest) <= MAX_MANIFEST_LEN,
        payload.len() <= MAX_PAYLOAD_LEN,
    ensures
        reading(image(encode_utf8(manifest), payload)) == contents(manifest, payload),
{
    image_parts(encode_utf8(manifest), payload);
    encode_utf8_valid_utf8(manifest);
    encode_utf8_decode_utf8(manifest);
}

/// A package whose payload was damaged in one byte is refused, with a message
/// that says so.
pub proof fn damaged_packages_are_refused(
    manifest: Seq<char>,
    payload: Seq<u8>,
    i: int,
    byte: u8,
)
    requires
        text::byte_len(manifest) <= MAX_MANIFEST_LEN,
        payload.len() <= MAX_PAYLOAD_LEN,
        0 <= i < payload.len(),
        byte != payload[i],
    ensures
        ({
            let m = encode_utf8(manifest);
            reading(image(m, payload).update(HEADER_LEN + m.len() + i, byte)) == Err::<
                PackageView,
                Seq<char>,
            >("package payload checksum mismatch"@)
        }),
{
    let m = encode_utf8(manifest);
    image_parts(m, payload);
    let b = image(m, payload);
    let bad = b.update(24 + m.len() + i, byte);
    assert(bad.take(8) =~= b.take(8));
    assert(bad.subrange(24int + m.len(), 24int + m.len() + payload.len()) =~= payload.update(
        i,
        byte,
    ));
    a_damaged_byte_changes_the_checksum(payload, i, byte);
}

/// A package is accepted only with an executable payload and a name that is
/// safe to use as a file name.
pub proof fn accepted_packages_are_sound(b: Seq<u8>)
    requires
        reading(b) is Ok,
    ensures
        valid_name(reading(b)->Ok_0.name),
        elf_error(reading(b)->Ok_0.payload) is None,
        reading(b)->Ok_0.payload.len() <= MAX_PAYLOAD_LEN,
{
}
/// The letters and digits of a text, in order.
pub open spec fn letters(s: Seq<char>) -> Seq<char>
    decreases s.len(),
{
    if s.len() == 0 {
        Seq::empty()
    } else if text::ascii_alphanumeric(s.last()) {
        letters(s.drop_last()).push(s.last())
    } else {
        letters(s.drop_last())
    }
}

proof fn dashes_are_no_letters(t: Seq<char>)
    ensures
        letters(text::trim_end_of(t, '-')) == letters(t),
    decreases t.len(),
{
    if t.len() > 0 && t.last() == '-' {
        dashes_are_no_letters(t.drop_last());
    }
}

proof fn dashed_letters(s: Seq<char>)
    ensures
        letters(dashed(s)) == text::lowered(letters(s)),
    decreases s.len(),
{
    if s.len() == 0 {
        assert(text::lowered(Seq::empty()) =~= Seq::<char>::empty());
    } else {
        let before = dashed(s.drop_last());
        dashed_letters(s.drop_last());
        let c = s.last();
        if text::ascii_alphanumeric(c) {
            let l = text::lower(c);
            assert(text::ascii_alphanumeric(l));
            assert(before.push(l).drop_last() =~= before);
            assert(letters(s) == letters(s.drop_last()).push(c));
            assert(text::lowered(letters(s.drop_last()).push(c)) =~= text::lowered(
                letters(s.drop_last()),
            ).push(l));
        } else if before.len() > 0 && before.last() != '-' {
            assert(before.push('-').drop_last() =~= before);
        }
    }
}

/// A slug keeps the letters and digits of its name, in order and in lower
/// case; a name without any is called `app`.
pub proof fn slugs_keep_the_letters(s: Seq<char>)
    ensures
        letters(s).len() > 0 ==> letters(slug(s)) == text::lowered(letters(s)),
        letters(s).len() == 0 ==> slug(s) == "app"@,
{
    dashed_letters(s);
    dashes_are_no_letters(dashed(s));
    let t = text::trim_end_of(dashed(s), '-');
    assert(text::lowered(letters(s)).len() == letters(s).len());
    if letters(s).len() == 0 {
        dashed_needs_a_letter(s);
        assert(letters(t).len() == 0);
    }
}

/// A text without letters and digits leaves nothing behind.
proof fn dashed_needs_a_letter(s: Seq<char>)
    ensures
        letters(s).len() == 0 ==> dashed(s).len() == 0,
    decreases s.len(),
{
    if s.len() > 0 {
        dashed_needs_a_letter(s.drop_last());
    }
}

/// What lies between two words of a name becomes one dash.
pub proof fn words_are_parted_by_one_dash(s: Seq<char>, i: int)
    requires
        0 <= i,
        i + 1 < dashed(s).len(),
    ensures
        !(dashed(s)[i] == '-' && dashed(s)[i + 1] == '-'),
    decreases s.len(),
{
    let before = dashed(s.drop_last());
    let c = s.last();
    if i + 1 < before.len() {
        words_are_parted_by_one_dash(s.drop_last(), i);
    } else {
        assert(dashed(s).len() == before.len() + 1);
        assert(dashed(s)[i] == before.last());
        if text::ascii_alphanumeric(c) {
            assert(dashed(s)[i + 1] == text::lower(c));
        }
    }
}

proof fn plain_text_stays(s: Seq<char>)
    requires
        forall|i: int| 0 <= i < s.len() ==> slug_char(#[trigger] s[i]),
        s.len() > 0 ==> s[0] != '-',
        forall|i: int, j: int|
            0 <= i && j == i + 1 && j < s.len() ==> !(#[trigger] s[i] == '-' && #[trigger] s[j] == '-'),
    ensures
        dashed(s) == s,
    decreases s.len(),
{
    if s.len() > 0 {
        let t = s.drop_last();
        assert forall|i: int, j: int| 0 <= i && j == i + 1 && j < t.len() implies !(#[trigger] t[i]
            == '-' && #[trigger] t[j] == '-') by {
            assert(t[i] == s[i] && t[j] == s[j]);
        }
        assert forall|i: int| 0 <= i < t.len() implies slug_char(#[trigger] t[i]) by {
            assert(t[i] == s[i]);
        }
        plain_text_stays(t);
        assert(slug_char(s[s.len() - 1]));
        if s.last() == '-' {
            assert(t.len() > 0);
            assert(s[s.len() - 2] != '-' || s[s.len() - 1] != '-');
            assert(t.last() == s[s.len() - 2]);
        }
        assert(t.push(s.last()) =~= s);
    }
}

proof fn trimming_keeps_the_front(t: Seq<char>)
    ensures
        text::trim_end_of(t, '-').len() <= t.len(),
        text::trim_end_of(t, '-') == t.take(text::trim_end_of(t, '-').len() as int),
    decreases t.len(),
{
    if t.len() > 0 && t.last() == '-' {
        trimming_keeps_the_front(t.drop_last());
        let n = text::trim_end_of(t.drop_last(), '-').len() as int;
        assert(t.drop_last().take(n) =~= t.take(n));
    } else {
        assert(t.take(t.len() as int) =~= t);
    }
}

/// The slug of a slug is that slug, so a package keeps its file name.
pub proof fn slugs_stay_as_they_are(s: Seq<char>)
    ensures
        slug(slug(s)) == slug(s),
{
    let u = slug(s);
    slug_is_a_safe_file_name(s);
    let t = text::trim_end_of(dashed(s), '-');
    if t.len() == 0 {
        reveal_strlit("app");
        assert(u[0] == 'a' && u[1] == 'p' && u[2] == 'p' && u.len() == 3);
    } else {
        trimming_keeps_the_front(dashed(s));
        assert forall|i: int, j: int| 0 <= i && j == i + 1 && j < u.len() implies !(#[trigger] u[i]
            == '-' && #[trigger] u[j] == '-') by {
            words_are_parted_by_one_dash(s, i);
            assert(u[i] == dashed(s)[i] && u[j] == dashed(s)[i + 1]);
        }
    }
    plain_text_stays(u);
    assert(text::trim_end_of(u, '-') == u);
}

/// Names are told apart by more than the case of their letters: two names that
/// differ in nothing else have one slug.
pub proof fn case_makes_no_difference(s: Seq<char>)
    ensures
        dashed(text::lowered(s)) == dashed(s),
        slug(text::lowered(s)) == slug(s),
    decreases s.len(),
{
    let l = text::lowered(s);
    if s.len() > 0 {
        case_makes_no_difference(s.drop_last());
        assert(l.drop_last() =~= text::lowered(s.drop_last()));
        assert(l.last() == text::lower(s.last()));
        assert(text::ascii_alphanumeric(l.last()) == text::ascii_alphanumeric(s.last()));
        assert(text::lower(l.last()) == text::lower(s.last()));
    } else {
        assert(l =~= s);
    }
}

/// A manifest is read line by line, from the top.
pub proof fn manifests_are_read_line_by_line(line: Seq<char>, rest: Seq<char>)
    requires
        !line.contains('\n'),
    ensures
        manifest_fields(line) == line_field(line),
        manifest_fields(line + seq!['\n'] + rest) == line_field(line) + manifest_fields(rest),
{
    let n = line.len() as int;
    assert forall|j: int| 0 <= j < n implies line[j] != '\n' by {
        if line[j] == '\n' {
            assert(line.contains('\n'));
        }
    }
    text::find_at(line, '\n', n);
    let one = seq![line];
    assert(text::split(line, '\n') == one);
    assert(one.drop_last() =~= Seq::<Seq<char>>::empty());
    assert(line_fields(one.drop_last()) =~= Seq::<(Seq<char>, Seq<char>)>::empty());
    assert(line_fields(one) =~= line_field(line));
    let all = line + seq!['\n'] + rest;
    assert(all[n] == '\n');
    assert forall|j: int| 0 <= j < n implies all[j] != '\n' by {
        assert(all[j] == line[j]);
    }
    text::find_at(all, '\n', n);
    assert(all.take(n) =~= line);
    assert(all.skip(n + 1) =~= rest);
    let more = text::split(rest, '\n');
    assert(text::split(all, '\n') == one + more);
    fields_follow_the_lines(line, more);
}

proof fn fields_follow_the_lines(line: Seq<char>, more: Seq<Seq<char>>)
    ensures
        line_fields(seq![line] + more) == line_field(line) + line_fields(more),
    decreases more.len(),
{
    let v = seq![line] + more;
    if more.len() == 0 {
        assert(v =~= seq![line]);
        assert(v.drop_last() =~= Seq::<Seq<char>>::empty());
        assert(line_fields(v.drop_last()) =~= Seq::<(Seq<char>, Seq<char>)>::empty());
        assert(line_fields(v) =~= line_field(line));
        assert(line_field(line) + line_fields(more) =~= line_field(line));
    } else {
        fields_follow_the_lines(line, more.drop_last());
        assert(v.drop_last() =~= seq![line] + more.drop_last());
        assert(v.last() == more.last());
        assert(line_fields(v) =~= line_field(line) + line_fields(more));
    }
}

/// `key = value` is a field, whatever white space lies around its two parts.
/// The key may be written in capitals, and the value keeps any further `=`.
pub proof fn lines_hold_a_key_and_a_value(
    a: Seq<char>,
    key: Seq<char>,
    b: Seq<char>,
    c: Seq<char>,
    value: Seq<char>,
    d: Seq<char>,
)
    requires
        text::blank(a) && text::blank(b) && text::blank(c) && text::blank(d),
        text::bare(key) && text::bare(value),
        key.len() > 0,
        value.len() > 0,
        key[0] != '#',
        !key.contains('='),
        text::byte_len(value) <= 128,
    ensures
        line_field(a + key + b + seq!['='] + c + value + d) == seq![(text::lowered(key), value)],
{
    let raw = a + key + b + seq!['='] + c + value + d;
    let line = key + b + seq!['='] + c + value;
    assert(raw =~= a + line + d);
    assert(line[0] == key[0] && line[line.len() - 1] == value[value.len() - 1]);
    text::trimming_removes_the_ends(a, line, d);
    let eq = (key.len() + b.len()) as int;
    assert forall|j: int| 0 <= j < eq implies line[j] != '=' by {
        if j < key.len() {
            assert(line[j] == key[j]);
            if key[j] == '=' {
                assert(key.contains('='));
            }
        } else {
            assert(line[j] == b[j - key.len()]);
            assert(text::white_space(b[j - key.len()]));
        }
    }
    assert(line[eq] == '=');
    text::find_at(line, '=', eq);
    let none = Seq::<char>::empty();
    assert(line.take(eq) =~= none + key + b);
    text::trimming_removes_the_ends(none, key, b);
    assert(line.skip(eq + 1) =~= c + value + none);
    text::trimming_removes_the_ends(c, value, none);
    assert(text::clipped(value, 128) == value);
}

/// A comment and a line without `=` say nothing.
pub proof fn other_lines_say_nothing(a: Seq<char>, rest: Seq<char>)
    requires
        text::blank(a),
        rest.contains('=') ==> text::bare(rest) && rest.len() > 0 && rest[0] == '#',
    ensures
        line_field(a + rest).len() == 0,
{
    if rest.contains('=') {
        let none = Seq::<char>::empty();
        text::trimming_removes_the_ends(a, rest, none);
        assert(a + rest + none =~= a + rest);
    } else {
        let ends = text::trimming_loses_only_blanks(a + rest);
        let line = text::trimmed(a + rest);
        let all = ends.0 + line + ends.1;
        text::find_bounds(line, '=');
        let eq = text::find(line, '=');
        if eq < line.len() {
            let k = ends.0.len() + eq;
            assert(all[k] == '=');
            assert((a + rest)[k] == '=');
            if k < a.len() {
                assert(a[k] == '=');
                assert(text::white_space(a[k]));
            } else {
                assert(rest[k - a.len()] == '=');
            }
        }
    }
}

/// The first field with a key counts, and the others do not matter.
pub proof fn the_first_field_counts(
    front: Seq<(Seq<char>, Seq<char>)>,
    key: Seq<char>,
    value: Seq<char>,
    rest: Seq<(Seq<char>, Seq<char>)>,
)
    requires
        forall|i: int| 0 <= i < front.len() ==> (#[trigger] front[i]).0 != key,
    ensures
        lookup(front + seq![(key, value)] + rest, key) == Some(value),
        lookup(front, key) is None,
    decreases front.len(),
{
    let all = front + seq![(key, value)] + rest;
    if front.len() == 0 {
        assert(all[0] == (key, value));
    } else {
        assert(all[0] == front[0]);
        let f = front.skip(1);
        assert forall|i: int| 0 <= i < f.len() implies (#[trigger] f[i]).0 != key by {
            assert(f[i] == front[i + 1]);
        }
        the_first_field_counts(f, key, value, rest);
        assert(all.skip(1) =~= f + seq![(key, value)] + rest);
    }
}

/// A package is what its manifest says it is: the name is needed, and
/// the rest has something to fall back on.
pub proof fn packages_are_what_their_manifest_says(
    manifest: Seq<char>,
    payload: Seq<u8>,
    key: Seq<char>,
    value: Seq<char>,
)
    requires
        contents(manifest, payload) is Ok,
        key == "name"@ || key == "version"@ || key == "description"@ || key == "icon"@,
    ensures
        ({
            let p = contents(manifest, payload)->Ok_0;
            let said = lookup(manifest_fields(manifest), key);
            &&& p.payload == payload
            &&& said == Some(value) && key == "name"@ ==> p.name == value && valid_name(value)
            &&& said == Some(value) && key == "version"@ ==> p.version == value
            &&& said == Some(value) && key == "description"@ ==> p.description == value
            &&& said == Some(value) && key == "icon"@ ==> p.icon == value
            &&& said is None ==> key != "name"@
            &&& said is None && key == "version"@ ==> p.version == "0.0.0"@
            &&& said is None && key == "description"@ ==> p.description.len() == 0
            &&& said is None && key == "icon"@ ==> p.icon.len() == 0
        }),
{
    reveal_strlit("");
}

/// A payload is taken exactly if it begins as a 64-bit, little-endian ELF file
/// and is an executable for this processor.
pub proof fn only_programs_are_taken(p: Seq<u8>)
    ensures
        elf_error(p) is None <==> {
            &&& p.len() >= 64
            &&& p.take(4) == seq![0x7Fu8, 'E' as u8, 'L' as u8, 'F' as u8]
            &&& p[4] == 2 && p[5] == 1
            &&& p[18] == 62 && p[19] == 0
            &&& (p[16] == 2 || p[16] == 3) && p[17] == 0
        },
{
    assert('E' as u8 == 0x45 && 'L' as u8 == 0x4C && 'F' as u8 == 0x46);
    if p.len() >= 64 {
        let q = p.take(4);
        assert(q[0] == p[0] && q[1] == p[1] && q[2] == p[2] && q[3] == p[3]);
        let m = seq![0x7Fu8, 0x45u8, 0x4Cu8, 0x46u8];
        assert(m[0] == 0x7F && m[1] == 0x45 && m[2] == 0x4C && m[3] == 0x46);
        if q[0] == 0x7F && q[1] == 0x45 && q[2] == 0x4C && q[3] == 0x46 {
            assert(q =~= m);
        }
    }
}

/// How a package lies in its file: the letters `OS101PKG`, the version of the
/// format, no flags, the two lengths and the checksum, each with its
/// least significant byte first, and then the manifest and the payload.
pub proof fn images_are_laid_out(manifest: Seq<u8>, payload: Seq<u8>)
    requires
        manifest.len() <= MAX_MANIFEST_LEN,
        payload.len() <= MAX_PAYLOAD_LEN,
    ensures
        ({
            let b = image(manifest, payload);
            &&& b.len() == 24 + manifest.len() + payload.len()
            &&& b.take(8) == seq![79u8, 83u8, 49u8, 48u8, 49u8, 80u8, 75u8, 71u8]
            &&& b[8] == 1 && b[9] == 0 && b[10] == 0 && b[11] == 0
            &&& b[12] + 256 * b[13] == manifest.len() && b[14] == 0 && b[15] == 0
            &&& b[16] + 256 * b[17] + 65536 * b[18] == payload.len() && b[19] == 0
            &&& b[20] + 256 * b[21] + 65536 * b[22] + 16777216 * b[23] == checksum(payload)
            &&& b.subrange(24, 24 + manifest.len() as int) == manifest
            &&& b.skip(24 + manifest.len() as int) == payload
        }),
{
    let b = image(manifest, payload);
    let m = manifest.len() as int;
    image_parts(manifest, payload);
    assert(MAGIC@ =~= seq![79u8, 83u8, 49u8, 48u8, 49u8, 80u8, 75u8, 71u8]);
    assert(b.skip(24 + m) =~= b.subrange(24 + m, b.len() as int));
}

} // verus!
