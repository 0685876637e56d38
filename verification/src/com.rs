//! The identity contract a registrable class supplies, the failure kinds
//! shared by the crate, and the canonical textual form of an identifier.

use vstd::prelude::*;

verus! {

/// A 128-bit class or interface identifier, held as plain integers in the
/// layout its canonical textual form is defined over.
#[derive(Clone, Copy, PartialEq, Eq, Structural, Debug)]
pub struct Guid {
    pub data1: u32,
    pub data2: u16,
    pub data3: u16,
    /// The final eight bytes of the identifier, highest byte first.
    pub data4: u64,
}

/// The failure kinds of the crate: which pointer checks, state checks,
/// lookups, and configuration-store decisions a call can founder on.
#[derive(Clone, Copy, PartialEq, Eq, Structural, Debug)]
pub enum ComError {
    /// A required pointer argument was absent.
    InvalidPointer,
    /// Aggregation was requested but is unsupported.
    NoAggregation,
    /// The requested identifier is not in the dispatch table.
    ClassNotAvailable,
    /// Commit was attempted on an already-committed transaction.
    IllegalState,
    /// An open was attempted on an absent node.
    NotFound,
    /// The configuration store refused an edit at this node.
    AccessDenied,
    /// The requested interface is not implemented by the object.
    NoInterface,
}

/// The lowercase hexadecimal digit for a nibble; nibbles are at most 15.
pub open spec fn hex_digit(n: u8) -> u8 {
    if n < 10 {
        (48 + n) as u8
    } else if n < 16 {
        (87 + n) as u8
    } else {
        48
    }
}

/// The nibble of `v` that starts `sh` bits from the low end.
pub open spec fn nib32(v: u32, sh: u32) -> u8 {
    ((v >> sh) & 0xf) as u8
}

/// The nibble of `v` that starts `sh` bits from the low end.
pub open spec fn nib16(v: u16, sh: u16) -> u8 {
    ((v >> sh) & 0xf) as u8
}

/// The nibble of `v` that starts `sh` bits from the low end.
pub open spec fn nib64(v: u64, sh: u64) -> u8 {
    ((v >> sh) & 0xf) as u8
}

/// The canonical braced, hyphenated, lowercase-hex form of an identifier:
/// 38 characters plus a terminating nul, as single bytes.
pub open spec fn guid_ascii(g: Guid) -> Seq<u8> {
    seq![
        123u8,
        hex_digit(nib32(g.data1, 28)),
        hex_digit(nib32(g.data1, 24)),
        hex_digit(nib32(g.data1, 20)),
        hex_digit(nib32(g.data1, 16)),
        hex_digit(nib32(g.data1, 12)),
        hex_digit(nib32(g.data1, 8)),
        hex_digit(nib32(g.data1, 4)),
        hex_digit(nib32(g.data1, 0)),
        45u8,
        hex_digit(nib16(g.data2, 12)),
        hex_digit(nib16(g.data2, 8)),
        hex_digit(nib16(g.data2, 4)),
        hex_digit(nib16(g.data2, 0)),
        45u8,
        hex_digit(nib16(g.data3, 12)),
        hex_digit(nib16(g.data3, 8)),
        hex_digit(nib16(g.data3, 4)),
        hex_digit(nib16(g.data3, 0)),
        45u8,
        hex_digit(nib64(g.data4, 60)),
        hex_digit(nib64(g.data4, 56)),
        hex_digit(nib64(g.data4, 52)),
        hex_digit(nib64(g.data4, 48)),
        45u8,
        hex_digit(nib64(g.data4, 44)),
        hex_digit(nib64(g.data4, 40)),
        hex_digit(nib64(g.data4, 36)),
        hex_digit(nib64(g.data4, 32)),
        hex_digit(nib64(g.data4, 28)),
        hex_digit(nib64(g.data4, 24)),
        hex_digit(nib64(g.data4, 20)),
        hex_digit(nib64(g.data4, 16)),
        hex_digit(nib64(g.data4, 12)),
        hex_digit(nib64(g.data4, 8)),
        hex_digit(nib64(g.data4, 4)),
        hex_digit(nib64(g.data4, 0)),
        125u8,
        0u8,
    ]
}

/// The same bytes widened to two-byte characters.
pub open spec fn widen(s: Seq<u8>) -> Seq<u16> {
    s.map_values(|b: u8| b as u16)
}

/// The canonical wide form of an identifier, terminating nul included.
pub open spec fn guid_wide(g: Guid) -> Seq<u16> {
    widen(guid_ascii(g))
}

/// The canonical wide form without the terminating nul: the 38 characters
/// that name a configuration-store node for the identifier.
pub open spec fn guid_wide_name(g: Guid) -> Seq<u16> {
    guid_wide(g).take(38)
}

fn push_hex_digit(out: &mut Vec<u8>, n: u8)
    requires
        n < 16,
    ensures
        final(out)@ == old(out)@.push(hex_digit(n)),
{
    if n < 10 {
        out.push(48 + n);
    } else {
        out.push(87 + n);
    }
}

fn nibble32(v: u32, sh: u32) -> (r: u8)
    requires
        sh < 32,
    ensures
        r == nib32(v, sh),
        r < 16,
{
    proof {
        assert((v >> sh) & 0xf < 16) by (bit_vector);
    }
    ((v >> sh) & 0xf) as u8
}

fn nibble16(v: u16, sh: u16) -> (r: u8)
    requires
        sh < 16,
    ensures
        r == nib16(v, sh),
        r < 16,
{
    proof {
        assert((v >> sh) & 0xf < 16) by (bit_vector);
    }
    ((v >> sh) & 0xf) as u8
}

fn nibble64(v: u64, sh: u64) -> (r: u8)
    requires
        sh < 64,
    ensures
        r == nib64(v, sh),
        r < 16,
{
    proof {
        assert((v >> sh) & 0xf < 16) by (bit_vector);
    }
    ((v >> sh) & 0xf) as u8
}

/// Rendering an identifier into its canonical textual form, in single-byte
/// and wide encodings, both nul-terminated.
pub trait GuidExt {
    /// The single-byte rendering this value must produce.
    spec fn ascii_spec(&self) -> Seq<u8>;

    fn to_ascii_with_nul(&self) -> (r: Vec<u8>)
        ensures
            r@ == self.ascii_spec(),
    ;

    fn to_wide(&self) -> (r: Vec<u16>)
        ensures
            r@ == widen(self.ascii_spec()),
    ;
}

impl GuidExt for Guid {
    open spec fn ascii_spec(&self) -> Seq<u8> {
        guid_ascii(*self)
    }

    #[verifier::rlimit(100)]
    fn to_ascii_with_nul(&self) -> (r: Vec<u8>) {
        let mut out: Vec<u8> = Vec::new();
        out.push(123);
        push_hex_digit(&mut out, nibble32(self.data1, 28));
        push_hex_digit(&mut out, nibble32(self.data1, 24));
        push_hex_digit(&mut out, nibble32(self.data1, 20));
        push_hex_digit(&mut out, nibble32(self.data1, 16));
        push_hex_digit(&mut out, nibble32(self.data1, 12));
        push_hex_digit(&mut out, nibble32(self.data1, 8));
        push_hex_digit(&mut out, nibble32(self.data1, 4));
        push_hex_digit(&mut out, nibble32(self.data1, 0));
        out.push(45);
        push_hex_digit(&mut out, nibble16(self.data2, 12));
        push_hex_digit(&mut out, nibble16(self.data2, 8));
        push_hex_digit(&mut out, nibble16(self.data2, 4));
        push_hex_digit(&mut out, nibble16(self.data2, 0));
        out.push(45);
        push_hex_digit(&mut out, nibble16(self.data3, 12));
        push_hex_digit(&mut out, nibble16(self.data3, 8));
        push_hex_digit(&mut out, nibble16(self.data3, 4));
        push_hex_digit(&mut out, nibble16(self.data3, 0));
        proof {
            assert(out@ =~= guid_ascii(*self).take(19));
        }
        out.push(45);
        push_hex_digit(&mut out, nibble64(self.data4, 60));
        push_hex_digit(&mut out, nibble64(self.data4, 56));
        push_hex_digit(&mut out, nibble64(self.data4, 52));
        push_hex_digit(&mut out, nibble64(self.data4, 48));
        out.push(45);
        push_hex_digit(&mut out, nibble64(self.data4, 44));
        push_hex_digit(&mut out, nibble64(self.data4, 40));
        push_hex_digit(&mut out, nibble64(self.data4, 36));
        push_hex_digit(&mut out, nibble64(self.data4, 32));
        push_hex_digit(&mut out, nibble64(self.data4, 28));
        push_hex_digit(&mut out, nibble64(self.data4, 24));
        push_hex_digit(&mut out, nibble64(self.data4, 20));
        push_hex_digit(&mut out, nibble64(self.data4, 16));
        push_hex_digit(&mut out, nibble64(self.data4, 12));
        push_hex_digit(&mut out, nibble64(self.data4, 8));
        push_hex_digit(&mut out, nibble64(self.data4, 4));
        push_hex_digit(&mut out, nibble64(self.data4, 0));
        out.push(125);
        out.push(0);
        proof {
            assert(out@ =~= guid_ascii(*self));
        }
        out
    }

    fn to_wide(&self) -> (r: Vec<u16>) {
        let ascii = self.to_ascii_with_nul();
        let mut out: Vec<u16> = Vec::new();
        let mut i: usize = 0;
        while i < ascii.len()
            invariant
                i <= ascii@.len(),
                ascii@ == guid_ascii(*self),
                out@ == widen(ascii@.take(i as int)),
            decreases ascii@.len() - i,
        {
            out.push(ascii[i] as u16);
            proof {
                assert(out@ =~= widen(ascii@.take(i + 1 as int)));
            }
            i = i + 1;
        }
        proof {
            assert(ascii@.take(ascii@.len() as int) =~= ascii@);
        }
        out
    }
}

/// The facts every registrable class supplies: a stable unique identifier,
/// a primary name, and a version-independent name. The names are wide
/// strings without a terminating nul, usable as configuration-store path
/// segments.
pub trait CoClass {
    /// The identifier the executable getters must return.
    spec fn clsid_spec() -> Guid;

    /// The primary name the executable getters must return.
    spec fn prog_id_spec() -> Seq<u16>;

    /// The version-independent name the executable getters must return.
    spec fn version_independent_prog_id_spec() -> Seq<u16>;

    fn clsid() -> (r: Guid)
        ensures
            r == Self::clsid_spec(),
    ;

    fn prog_id() -> (r: Vec<u16>)
        ensures
            r@ == Self::prog_id_spec(),
    ;

    fn version_independent_prog_id() -> (r: Vec<u16>)
        ensures
            r@ == Self::version_independent_prog_id_spec(),
    ;
}

/// A registrable class the broker can also construct: the zero-argument
/// fallible constructor of the identity contract.
pub trait CreatableCoClass: CoClass + Sized {
    fn new() -> Result<Self, ComError>;
}

} // verus!
