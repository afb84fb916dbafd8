//! Bitsets: bitfield positions and the emitted accessor struct.

use vstd::prelude::*;
use crate::ast::{BitfieldDecl, Bitset};
use crate::text::{append_decimal, decimal, to_upper, upper};
use crate::types::Annotation;
use crate::union::GenErrorKind;

verus! {

/// The first explicit `@position` of a bitfield.
pub open spec fn explicit_position(anns: Seq<Annotation>) -> Option<u32>
    decreases anns.len(),
{
    if anns.len() == 0 {
        None
    } else {
        match explicit_position(anns.drop_last()) {
            Some(p) => Some(p),
            None => match anns.last() {
                Annotation::Position(p) => Some(p),
                _ => None,
            },
        }
    }
}

/// Position and width of each bitfield: an explicit `@position`, else just
/// after the previous bitfield. `None` when a width is 0 or above 64, or a
/// bitfield reaches past bit 64.
pub open spec fn bit_layout(fields: Seq<BitfieldDecl>) -> Option<Seq<(u32, u32)>>
    decreases fields.len(),
{
    if fields.len() == 0 {
        Some(Seq::empty())
    } else {
        match bit_layout(fields.drop_last()) {
            None => None,
            Some(ls) => {
                let next: int = if ls.len() == 0 { 0 } else { ls.last().0 + ls.last().1 };
                let f = fields.last();
                let pos: int = match explicit_position(f.annotations@) {
                    Some(p) => p as int,
                    None => next,
                };
                if 1 <= f.width <= 64 && pos + f.width <= 64 {
                    Some(ls.push((pos as u32, f.width)))
                } else {
                    None
                }
            },
        }
    }
}

/// `pre` followed by the shift and mask constants of the bitfields.
pub open spec fn bit_consts_text(pre: Seq<char>, fields: Seq<BitfieldDecl>, ls: Seq<(u32, u32)>) -> Seq<char>
    decreases fields.len(),
{
    if fields.len() == 0 {
        pre
    } else {
        let f = fields.last();
        let pw = ls.last();
        let pre = bit_consts_text(pre, fields.drop_last(), ls.drop_last());
        pre + "    pub const "@ + upper(f.name@) + "_SHIFT: u32 = "@ + decimal(pw.0 as nat) + ";\n"@
        + "    pub const "@ + upper(f.name@) + "_MASK: u64 = u64::MAX >> "@
        + decimal((64 - pw.1) as nat) + ";\n"@
    }
}

/// `pre` followed by the getter, setter and `with_` builder of each bitfield.
pub open spec fn bit_accessors_text(pre: Seq<char>, fields: Seq<BitfieldDecl>) -> Seq<char>
    decreases fields.len(),
{
    if fields.len() == 0 {
        pre
    } else {
        let f = fields.last();
        let pre = bit_accessors_text(pre, fields.drop_last());
        pre + "\n    pub fn "@ + f.name@ + "(&self) -> u64 {\n        (self.bits >> Self::"@
        + upper(f.name@) + "_SHIFT) & Self::"@ + upper(f.name@) + "_MASK\n    }\n\n"@
        + "    pub fn set_"@ + f.name@
        + "(&mut self, value: u64) {\n        self.bits = (self.bits & !(Self::"@ + upper(f.name@)
        + "_MASK << Self::"@ + upper(f.name@) + "_SHIFT)) | ((value & Self::"@ + upper(f.name@)
        + "_MASK) << Self::"@ + upper(f.name@) + "_SHIFT);\n    }\n\n"@ + "    pub fn with_"@ + f.name@
        + "(mut self, value: u64) -> Self {\n        self.set_"@ + f.name@
        + "(value);\n        self\n    }\n"@
    }
}

/// The code of a bitset: a `u64` wrapper with per-field constants and
/// accessors.
pub open spec fn bitset_text(b: Bitset) -> Result<Seq<char>, GenErrorKind> {
    match bit_layout(b.fields@) {
        None => Err(GenErrorKind::InvalidBitfield),
        Some(ls) => {
            let h = bit_consts_text(Seq::empty() + "#[derive(Debug, Clone, Copy, PartialEq, Eq, Default)]\n"@ + "pub struct "@
                + b.name@ + " { pub bits: u64 }\n\n"@ + "impl "@ + b.name@ + " {\n"@, b.fields@, ls);
            let h = bit_accessors_text(h + "\n    pub const fn zero() -> Self {\n        Self { bits: 0 }\n    }\n\n"@
                + "    pub const fn from_bits(bits: u64) -> Self {\n        Self { bits }\n    }\n\n"@
                + "    pub const fn bits(&self) -> u64 {\n        self.bits\n    }\n"@, b.fields@);
            Ok(h + "}\n\n"@)
        },
    }
}

proof fn lemma_position_prefix(anns: Seq<Annotation>, k: int)
    requires
        0 <= k <= anns.len(),
        explicit_position(anns.take(k)) is Some,
    ensures
        explicit_position(anns) == explicit_position(anns.take(k)),
    decreases anns.len() - k,
{
    if k < anns.len() {
        assert(anns.take(k + 1).drop_last() =~= anns.take(k));
        lemma_position_prefix(anns, k + 1);
    } else {
        assert(anns.take(k) =~= anns);
    }
}

/// The explicit `@position` of a bitfield.
pub fn position_of(anns: &Vec<Annotation>) -> (r: Option<u32>)
    ensures
        r == explicit_position(anns@),
{
    let mut i: usize = 0;
    assert(anns@.take(0) =~= Seq::<Annotation>::empty());
    while i < anns.len()
        invariant
            i <= anns@.len(),
            explicit_position(anns@.take(i as int)) is None,
        decreases anns.len() - i,
    {
        proof {
            assert(anns@.take(i + 1).drop_last() =~= anns@.take(i as int));
            assert(anns@.take(i + 1).last() == anns@[i as int]);
        }
        if let Annotation::Position(p) = anns[i] {
            proof {
                lemma_position_prefix(anns@, i + 1);
            }
            return Some(p);
        }
        i = i + 1;
    }
    assert(anns@.take(anns@.len() as int) =~= anns@);
    None
}

proof fn lemma_layout_prefix_none(fields: Seq<BitfieldDecl>, i: int)
    requires
        0 <= i <= fields.len(),
        bit_layout(fields.take(i)) is None,
    ensures
        bit_layout(fields) is None,
    decreases fields.len() - i,
{
    if i < fields.len() {
        assert(fields.take(i + 1).drop_last() =~= fields.take(i));
        lemma_layout_prefix_none(fields, i + 1);
    } else {
        assert(fields.take(i) =~= fields);
    }
}

/// Position and width of each bitfield, or `None` when one does not fit.
pub fn compute_bit_layout(fields: &Vec<BitfieldDecl>) -> (r: Option<Vec<(u32, u32)>>)
    ensures
        r matches Some(ls) ==> bit_layout(fields@) == Some(ls@),
        r is None ==> bit_layout(fields@) is None,
{
    let mut ls: Vec<(u32, u32)> = Vec::new();
    let mut next: u32 = 0;
    let mut i: usize = 0;
    assert(fields@.take(0) =~= Seq::<BitfieldDecl>::empty());
    while i < fields.len()
        invariant
            i <= fields@.len(),
            bit_layout(fields@.take(i as int)) == Some(ls@),
            ls@.len() == i,
            next as int == if i == 0 { 0int } else { ls@.last().0 + ls@.last().1 },
            next <= 64,
        decreases fields.len() - i,
    {
        let f = &fields[i];
        proof {
            assert(fields@.take(i + 1).drop_last() =~= fields@.take(i as int));
            assert(fields@.take(i + 1).last() == fields@[i as int]);
        }
        let pos: u32 = match position_of(&f.annotations) {
            Some(p) => p,
            None => next,
        };
        if !(1 <= f.width && f.width <= 64 && pos <= 64 && f.width <= 64 - pos) {
            proof {
                lemma_layout_prefix_none(fields@, i + 1);
            }
            return None;
        }
        ls.push((pos, f.width));
        next = pos + f.width;
        i = i + 1;
    }
    assert(fields@.take(fields@.len() as int) =~= fields@);
    Some(ls)
}

/// The code of a bitset, or why it cannot be generated.
pub fn emit_bitset(b: &Bitset) -> (r: Result<String, GenErrorKind>)
    ensures
        r matches Ok(t) ==> bitset_text(*b) == Ok::<Seq<char>, GenErrorKind>(t@),
        r matches Err(e) ==> bitset_text(*b) == Err::<Seq<char>, GenErrorKind>(e),
{
    let ls = match compute_bit_layout(&b.fields) {
        Some(ls) => ls,
        None => {
            return Err(GenErrorKind::InvalidBitfield);
        },
    };
    proof {
        lemma_bit_layout_bounds(b.fields@);
    }
    let mut out = String::new();
    out.append("#[derive(Debug, Clone, Copy, PartialEq, Eq, Default)]\n");
    out.append("pub struct ");
    out.append(b.name.as_str());
    out.append(" { pub bits: u64 }\n\n");
    out.append("impl ");
    out.append(b.name.as_str());
    out.append(" {\n");
    let ghost h = out@;
    let mut i: usize = 0;
    assert(b.fields@.take(0) =~= Seq::<BitfieldDecl>::empty());
    assert(ls@.take(0) =~= Seq::<(u32, u32)>::empty());
    while i < b.fields.len()
        invariant
            i <= b.fields@.len(),
            ls@.len() == b.fields@.len(),
            forall|j: int| 0 <= j < ls@.len() ==> (#[trigger] ls@[j]).1 <= 64,
            out@ == bit_consts_text(h, b.fields@.take(i as int), ls@.take(i as int)),
        decreases b.fields.len() - i,
    {
        let f = &b.fields[i];
        let (pos, width) = ls[i];
        let up = to_upper(f.name.as_str());
        proof {
            assert(b.fields@.take(i + 1).drop_last() =~= b.fields@.take(i as int));
            assert(b.fields@.take(i + 1).last() == b.fields@[i as int]);
            assert(ls@.take(i + 1).drop_last() =~= ls@.take(i as int));
            assert(ls@.take(i + 1).last() == ls@[i as int]);
        }
        out.append("    pub const ");
        out.append(up.as_str());
        out.append("_SHIFT: u32 = ");
        append_decimal(&mut out, pos as u64);
        out.append(";\n");
        out.append("    pub const ");
        out.append(up.as_str());
        out.append("_MASK: u64 = u64::MAX >> ");
        append_decimal(&mut out, (64 - width) as u64);
        out.append(";\n");
        i = i + 1;
    }
    assert(b.fields@.take(b.fields@.len() as int) =~= b.fields@);
    assert(ls@.take(ls@.len() as int) =~= ls@);
    out.append("\n    pub const fn zero() -> Self {\n        Self { bits: 0 }\n    }\n\n");
    out.append("    pub const fn from_bits(bits: u64) -> Self {\n        Self { bits }\n    }\n\n");
    out.append("    pub const fn bits(&self) -> u64 {\n        self.bits\n    }\n");
    let ghost h = out@;
    let mut i: usize = 0;
    while i < b.fields.len()
        invariant
            i <= b.fields@.len(),
            out@ == bit_accessors_text(h, b.fields@.take(i as int)),
        decreases b.fields.len() - i,
    {
        let f = &b.fields[i];
        let up = to_upper(f.name.as_str());
        proof {
            assert(b.fields@.take(i + 1).drop_last() =~= b.fields@.take(i as int));
            assert(b.fields@.take(i + 1).last() == b.fields@[i as int]);
        }
        out.append("\n    pub fn ");
        out.append(f.name.as_str());
        out.append("(&self) -> u64 {\n        (self.bits >> Self::");
        out.append(up.as_str());
        out.append("_SHIFT) & Self::");
        out.append(up.as_str());
        out.append("_MASK\n    }\n\n");
        out.append("    pub fn set_");
        out.append(f.name.as_str());
        out.append("(&mut self, value: u64) {\n        self.bits = (self.bits & !(Self::");
        out.append(up.as_str());
        out.append("_MASK << Self::");
        out.append(up.as_str());
        out.append("_SHIFT)) | ((value & Self::");
        out.append(up.as_str());
        out.append("_MASK) << Self::");
        out.append(up.as_str());
        out.append("_SHIFT);\n    }\n\n");
        out.append("    pub fn with_");
        out.append(f.name.as_str());
        out.append("(mut self, value: u64) -> Self {\n        self.set_");
        out.append(f.name.as_str());
        out.append("(value);\n        self\n    }\n");
        i = i + 1;
    }
    assert(b.fields@.take(b.fields@.len() as int) =~= b.fields@);
    out.append("}\n\n");
    Ok(out)
}

/// Every bitfield of a valid layout has width at most 64 and ends at or
/// before bit 64.
pub proof fn lemma_bit_layout_bounds(fields: Seq<BitfieldDecl>)
    ensures
        bit_layout(fields) matches Some(ls) ==> ls.len() == fields.len() && forall|j: int|
            0 <= j < ls.len() ==> 1 <= (#[trigger] ls[j]).1 <= 64 && ls[j].0 + ls[j].1 <= 64,
    decreases fields.len(),
{
    if fields.len() > 0 {
        lemma_bit_layout_bounds(fields.drop_last());
    }
}

} // verus!
