//! The schema translator: projects a resolved device into the standardized
//! register/field representation used by downstream tooling, deriving each
//! field's contiguous bit range from its mask and dropping fields whose mask
//! is not one contiguous run of set bits.

use vstd::prelude::*;

use crate::device::Module;
use crate::peripheral::Instance;
use crate::register::Bitfield;
use crate::register::EnumerationValue;
use crate::tree::opt_view;
use crate::tree::str_eq;

verus! {

/// A contiguous bit range: `width` bits starting at bit `offset`.
#[derive(Debug, Clone, Copy, PartialEq, Eq, Structural)]
pub struct BitRange {
    pub offset: u32,
    pub width: u32,
}

/// The mask with the low `k` bits set.
pub open spec fn low_mask(k: u64) -> u64 {
    ((1u64 << k) - 1) as u64
}

/// The mask of `w` set bits starting at bit `o`.
pub open spec fn range_mask(o: u64, w: u64) -> u64 {
    low_mask(w) << o
}

/// The mask consists of exactly one contiguous run of set bits.
pub open spec fn is_contiguous(mask: u32) -> bool {
    exists|o: u64, w: u64|
        o < 32 && 1 <= w <= 32 && o + w <= 32 && (mask as u64) == range_mask(o, w)
}

/// The index of the lowest set bit of `x`.
fn trailing_zeros(x: u32) -> (r: u32)
    requires
        x != 0,
    ensures
        r < 32,
        (x >> r) & 1 == 1,
        (x as u64) & low_mask(r as u64) == 0,
{
    let mut i: u32 = 0;
    proof {
        assert((x as u64) & low_mask(0) == 0) by (bit_vector);
    }
    while i < 32
        invariant
            i <= 32,
            x != 0,
            (x as u64) & low_mask(i as u64) == 0,
        decreases 32 - i,
    {
        if (x >> i) & 1 == 1 {
            return i;
        }
        proof {
            assert((x as u64) & low_mask((i + 1) as u64) == 0) by (bit_vector)
                requires
                    i < 32,
                    (x >> i) & 1 != 1,
                    (x as u64) & low_mask(i as u64) == 0,
            ;
        }
        i += 1;
    }
    proof {
        assert(x != 0 ==> (x as u64) & low_mask(32) != 0) by (bit_vector);
    }
    vstd::pervasive::unreached()
}

/// The index of the lowest set bit of `x`, for values up to `2^32`.
fn trailing_zeros64(x: u64) -> (r: u64)
    requires
        x != 0,
        x <= 0x1_0000_0000,
    ensures
        r <= 32,
        (x >> r) & 1 == 1,
        x & low_mask(r) == 0,
{
    let mut i: u64 = 0;
    proof {
        assert(x & low_mask(0) == 0) by (bit_vector);
    }
    while i < 33
        invariant
            i <= 33,
            x != 0,
            x <= 0x1_0000_0000,
            x & low_mask(i) == 0,
        decreases 33 - i,
    {
        if (x >> i) & 1 == 1 {
            return i;
        }
        proof {
            assert(x & low_mask((i + 1) as u64) == 0) by (bit_vector)
                requires
                    i < 33,
                    (x >> i) & 1 != 1,
                    x & low_mask(i) == 0,
            ;
        }
        i += 1;
    }
    proof {
        assert(!(x != 0 && x <= 0x1_0000_0000 && x & low_mask(33) == 0)) by (bit_vector);
    }
    vstd::pervasive::unreached()
}

/// Derives the contiguous bit range a nonzero mask represents: its offset is
/// the count of trailing zeros and its width the length of the run of set
/// bits; a mask with more than one run has no contiguous range and yields
/// `None`.
pub fn bit_range(mask: u32) -> (r: Option<BitRange>)
    requires
        mask != 0,
    ensures
        match r {
            Some(br) => {
                &&& br.offset < 32
                &&& 1 <= br.width <= 32
                &&& br.offset + br.width <= 32
                &&& (mask as u64) == range_mask(br.offset as u64, br.width as u64)
            },
            None => !is_contiguous(mask),
        },
        r is Some <==> is_contiguous(mask),
{
    let offset = trailing_zeros(mask);
    proof {
        assert((mask as u64) >> offset <= 0xffff_ffffu64) by (bit_vector);
    }
    let low: u64 = (mask as u64) >> offset;
    let shifted: u64 = low + 1;
    if shifted & (shifted - 1) != 0 {
        proof {
            if is_contiguous(mask) {
                let (o2, w2): (u64, u64) = choose|o2: u64, w2: u64|
                    o2 < 32 && 1 <= w2 <= 32 && o2 + w2 <= 32 && (mask as u64) == range_mask(
                        o2,
                        w2,
                    );
                assert(false) by (bit_vector)
                    requires
                        mask != 0,
                        offset < 32,
                        (mask >> offset) & 1 == 1,
                        (mask as u64) & low_mask(offset as u64) == 0,
                        low == (mask as u64) >> offset,
                        shifted == low + 1,
                        shifted & ((shifted - 1) as u64) != 0,
                        o2 < 32,
                        1 <= w2 <= 32,
                        o2 + w2 <= 32,
                        (mask as u64) == range_mask(o2, w2),
                ;
            }
        }
        return None;
    }
    proof {
        assert(shifted != 0 && shifted <= 0x1_0000_0000) by (bit_vector)
            requires
                mask != 0,
                offset < 32,
                (mask >> offset) & 1 == 1,
                low == (mask as u64) >> offset,
                shifted == low + 1,
        ;
    }
    let width = trailing_zeros64(shifted);
    proof {
        assert({
            &&& 1 <= width <= 32
            &&& offset + width <= 32
            &&& (mask as u64) == range_mask(offset as u64, width)
        }) by (bit_vector)
            requires
                mask != 0,
                offset < 32,
                (mask >> offset) & 1 == 1,
                (mask as u64) & low_mask(offset as u64) == 0,
                low == (mask as u64) >> offset,
                shifted == low + 1,
                shifted & ((shifted - 1) as u64) == 0,
                width <= 32,
                (shifted >> width) & 1 == 1,
                shifted & low_mask(width) == 0,
        ;
    }
    let br = BitRange { offset, width: width as u32 };
    proof {
        let o: u64 = offset as u64;
        let w: u64 = width;
        assert(o < 32 && 1 <= w <= 32 && o + w <= 32 && (mask as u64) == range_mask(o, w));
    }
    Some(br)
}

/// How a target-schema register may be accessed.  The source-only
/// bidirectional mode has no counterpart here.
#[derive(Debug, Clone, Copy, PartialEq, Eq, Structural)]
pub enum Access {
    ReadOnly,
    WriteOnly,
    ReadWrite,
}

/// The target access mode of a source access mode: read-only and write-only
/// pass through; read-write and the source-only bidirectional mode both map
/// to read-write (an intentional lossy collapse).
pub open spec fn access_map(a: crate::register::Access) -> Access {
    match a {
        crate::register::Access::ReadOnly => Access::ReadOnly,
        crate::register::Access::WriteOnly => Access::WriteOnly,
        crate::register::Access::ReadWrite => Access::ReadWrite,
        crate::register::Access::Bidirectional => Access::ReadWrite,
    }
}

impl vstd::std_specs::convert::FromSpecImpl<crate::register::Access> for Access {
    open spec fn obeys_from_spec() -> bool {
        true
    }

    open spec fn from_spec(a: crate::register::Access) -> Access {
        access_map(a)
    }
}

impl From<crate::register::Access> for Access {
    /// Converts a source access mode under [`access_map`].
    fn from(a: crate::register::Access) -> (r: Access) {
        match a {
            crate::register::Access::ReadOnly => Access::ReadOnly,
            crate::register::Access::WriteOnly => Access::WriteOnly,
            crate::register::Access::ReadWrite => Access::ReadWrite,
            crate::register::Access::Bidirectional => Access::ReadWrite,
        }
    }
}

/// An enumerated value of a target-schema field.
#[derive(Debug, PartialEq)]
pub struct EnumeratedValue {
    pub name: String,
    pub description: Option<String>,
    pub value: u32,
}

/// A target-schema field: a named bit range, optionally with enumerated
/// values.
#[derive(Debug, PartialEq)]
pub struct Field {
    pub name: String,
    pub description: Option<String>,
    pub bit_range: BitRange,
    pub enumerated_values: Option<Vec<EnumeratedValue>>,
}

/// A target-schema register: address offset within the peripheral, size in
/// bits, optional access mode, and its fields.
#[derive(Debug, PartialEq)]
pub struct Register {
    pub name: String,
    pub description: Option<String>,
    pub address_offset: u32,
    pub size: u32,
    pub access: Option<Access>,
    pub fields: Vec<Field>,
}

/// A target-schema peripheral at its base address.
#[derive(Debug, PartialEq)]
pub struct Peripheral {
    pub name: String,
    pub description: Option<String>,
    pub base_address: u32,
    pub registers: Vec<Register>,
}

/// A target-schema device.
#[derive(Debug, PartialEq)]
pub struct Device {
    pub name: String,
    pub peripherals: Vec<Peripheral>,
}

/// A target enumerated value carries the source triple unchanged.
pub open spec fn ev_rel(ev: EnumeratedValue, v: EnumerationValue) -> bool {
    &&& ev.name@ == v.name@
    &&& opt_view(ev.description) == opt_view(v.description)
    &&& ev.value == v.value
}

/// Translates a resolved enumerated-value list one to one.
pub fn value_group(vs: &Vec<EnumerationValue>) -> (r: Vec<EnumeratedValue>)
    ensures
        r@.len() == vs@.len(),
        forall|k: int| 0 <= k < vs@.len() ==> ev_rel(#[trigger] r@[k], vs@[k]),
{
    let n = vs.len();
    let mut out: Vec<EnumeratedValue> = Vec::new();
    let mut i: usize = 0;
    while i < n
        invariant
            n == vs@.len(),
            i <= n,
            out@.len() == i,
            forall|k: int| 0 <= k < i ==> ev_rel(#[trigger] out@[k], vs@[k]),
        decreases n - i,
    {
        let v = &vs[i];
        let description: Option<String> = match &v.description {
            None => None,
            Some(d) => Some(d.clone()),
        };
        out.push(EnumeratedValue { name: v.name.clone(), description, value: v.value });
        i += 1;
    }
    out
}

/// A target field carries the source bitfield's name and description, the
/// bit range its mask stands for, and its enumerated values unchanged.
pub open spec fn field_rel(f: Field, b: Bitfield) -> bool {
    &&& f.name@ == b.name@
    &&& opt_view(f.description) == opt_view(b.description)
    &&& f.bit_range.offset < 32
    &&& 1 <= f.bit_range.width <= 32
    &&& f.bit_range.offset + f.bit_range.width <= 32
    &&& (b.mask as u64) == range_mask(f.bit_range.offset as u64, f.bit_range.width as u64)
    &&& match b.values {
        None => f.enumerated_values is None,
        Some(list) => f.enumerated_values matches Some(evs) && evs@.len() == list@.len() && (
        forall|k: int| 0 <= k < list@.len() ==> ev_rel(#[trigger] evs@[k], list@[k])),
    }
}

/// Translates one bitfield whose mask is contiguous.
pub fn field(b: &Bitfield) -> (r: Field)
    requires
        b.mask != 0,
        is_contiguous(b.mask),
    ensures
        field_rel(r, *b),
{
    let range = match bit_range(b.mask) {
        Some(br) => br,
        None => vstd::pervasive::unreached(),
    };
    let description: Option<String> = match &b.description {
        None => None,
        Some(d) => Some(d.clone()),
    };
    let enumerated_values: Option<Vec<EnumeratedValue>> = match &b.values {
        None => None,
        Some(list) => Some(value_group(list)),
    };
    Field { name: b.name.clone(), description, bit_range: range, enumerated_values }
}

/// The predicate selecting bitfields whose mask is one contiguous run.
pub open spec fn contiguous_pred() -> spec_fn(Bitfield) -> bool {
    |b: Bitfield| is_contiguous(b.mask)
}

/// The bitfields a register keeps in translation: those with a contiguous
/// mask, in order; the others are dropped silently.
pub open spec fn kept_bitfields(bs: Seq<Bitfield>) -> Seq<Bitfield> {
    bs.filter(contiguous_pred())
}

/// Every bitfield kept in translation has a contiguous mask: one whose mask
/// holds more than one run of set bits is excluded from the output.
pub proof fn lemma_kept_fields_contiguous(bs: Seq<Bitfield>, k: int)
    requires
        0 <= k < kept_bitfields(bs).len(),
    ensures
        is_contiguous(kept_bitfields(bs)[k].mask),
{
    bs.lemma_filter_pred(contiguous_pred(), k);
    assert((contiguous_pred())(kept_bitfields(bs)[k]));
}

/// A source register is translatable: its bit size fits in 32 bits and no
/// bitfield carries a zero mask (a zero mask is a contract violation).
pub open spec fn reg_wf(r: crate::register::Register) -> bool {
    &&& r.size <= 0x1fff_ffff
    &&& forall|k: int| 0 <= k < r.bitfields@.len() ==> (#[trigger] r.bitfields@[k]).mask != 0
}

/// A target register carries the source register's name, description,
/// offset, its byte size times eight as bit size, its access mode collapsed
/// under [`access_map`], and one field per contiguous-mask bitfield.
pub open spec fn register_rel(out: Register, r: crate::register::Register) -> bool {
    &&& out.name@ == r.name@
    &&& opt_view(out.description) == opt_view(r.description)
    &&& out.address_offset == r.offset
    &&& out.size == r.size * 8
    &&& match r.access {
        None => out.access is None,
        Some(a) => out.access == Some(access_map(a)),
    }
    &&& out.fields@.len() == kept_bitfields(r.bitfields@).len()
    &&& forall|k: int|
        0 <= k < out.fields@.len() ==> field_rel(
            #[trigger] out.fields@[k],
            kept_bitfields(r.bitfields@)[k],
        )
}

/// Translates one source register, dropping bitfields whose mask is not
/// contiguous.
pub fn register(r: &crate::register::Register) -> (out: Register)
    requires
        reg_wf(*r),
    ensures
        register_rel(out, *r),
{
    let description: Option<String> = match &r.description {
        None => None,
        Some(d) => Some(d.clone()),
    };
    let access: Option<Access> = match &r.access {
        None => None,
        Some(a) => Some(Access::from(*a)),
    };
    let n = r.bitfields.len();
    let mut fields: Vec<Field> = Vec::new();
    let mut i: usize = 0;
    while i < n
        invariant
            n == r.bitfields@.len(),
            i <= n,
            reg_wf(*r),
            fields@.len() == r.bitfields@.take(i as int).filter(contiguous_pred()).len(),
            forall|k: int|
                0 <= k < fields@.len() ==> field_rel(
                    #[trigger] fields@[k],
                    r.bitfields@.take(i as int).filter(contiguous_pred())[k],
                ),
        decreases n - i,
    {
        proof {
            reveal(Seq::filter);
            assert(r.bitfields@.take(i as int + 1).drop_last() =~= r.bitfields@.take(i as int));
        }
        let b = &r.bitfields[i];
        match bit_range(b.mask) {
            Some(_) => {
                let f = field(b);
                fields.push(f);
            },
            None => {},
        }
        i += 1;
    }
    proof {
        assert(r.bitfields@.take(n as int) =~= r.bitfields@);
    }
    Register {
        name: r.name.clone(),
        description,
        address_offset: r.offset,
        size: r.size * 8,
        access,
        fields,
    }
}

/// A source instance is translatable: every register of it is.
pub open spec fn inst_wf(p: Instance) -> bool {
    forall|k: int| 0 <= k < p.registers@.len() ==> reg_wf(#[trigger] p.registers@[k])
}

/// A target peripheral carries the instance's name, description, the
/// register-group offset as base address, and one register per resolved
/// register.
pub open spec fn peripheral_rel(out: Peripheral, p: Instance) -> bool {
    &&& out.name@ == p.name@
    &&& opt_view(out.description) == opt_view(p.description)
    &&& out.base_address == p.offset
    &&& out.registers@.len() == p.registers@.len()
    &&& forall|k: int|
        0 <= k < p.registers@.len() ==> register_rel(#[trigger] out.registers@[k], p.registers@[k])
}

/// Translates one resolved instance into a target peripheral.
pub fn peripheral(p: &Instance) -> (out: Peripheral)
    requires
        inst_wf(*p),
    ensures
        peripheral_rel(out, *p),
{
    let description: Option<String> = match &p.description {
        None => None,
        Some(d) => Some(d.clone()),
    };
    let n = p.registers.len();
    let mut registers: Vec<Register> = Vec::new();
    let mut i: usize = 0;
    while i < n
        invariant
            n == p.registers@.len(),
            i <= n,
            inst_wf(*p),
            registers@.len() == i,
            forall|k: int|
                0 <= k < i ==> register_rel(#[trigger] registers@[k], p.registers@[k]),
        decreases n - i,
    {
        let out = register(&p.registers[i]);
        registers.push(out);
        i += 1;
    }
    Peripheral { name: p.name.clone(), description, base_address: p.offset, registers }
}

/// The instance lives in the data address space; only those are translated.
pub open spec fn data_space(p: Instance) -> bool {
    p.address_space@ == "data"@
}

/// The predicate selecting data-space instances.
pub open spec fn data_pred() -> spec_fn(Instance) -> bool {
    |p: Instance| data_space(p)
}

/// The instances a device translates: for each family in order, its
/// data-space instances in order.
pub open spec fn device_insts(fams: Seq<crate::peripheral::PeripheralFamily>) -> Seq<Instance>
    decreases fams.len(),
{
    if fams.len() == 0 {
        Seq::empty()
    } else {
        device_insts(fams.drop_last()) + fams.last().instances@.filter(data_pred())
    }
}

/// A resolved device is translatable: every register of every data-space
/// instance is.
pub open spec fn device_wf(d: crate::device::Device) -> bool {
    forall|k: int, m: int|
        #![trigger d.peripherals@[k].instances@[m]]
        0 <= k < d.peripherals@.len() && 0 <= m < d.peripherals@[k].instances@.len() && data_space(
            d.peripherals@[k].instances@[m],
        ) ==> inst_wf(d.peripherals@[k].instances@[m])
}

/// A target device carries the source device's name and one peripheral per
/// data-space instance, families in order and instances in order within each.
pub open spec fn device_rel(out: Device, d: crate::device::Device) -> bool {
    &&& out.name@ == d.name@
    &&& out.peripherals@.len() == device_insts(d.peripherals@).len()
    &&& forall|k: int|
        0 <= k < out.peripherals@.len() ==> peripheral_rel(
            #[trigger] out.peripherals@[k],
            device_insts(d.peripherals@)[k],
        )
}

/// Extending the family prefix by one appends that family's data-space
/// instances.
proof fn lemma_device_insts_push(fams: Seq<crate::peripheral::PeripheralFamily>, i: int)
    requires
        0 <= i < fams.len(),
    ensures
        device_insts(fams.take(i + 1)) == device_insts(fams.take(i)) + fams[i].instances@.filter(
            data_pred(),
        ),
{
    assert(fams.take(i + 1).drop_last() =~= fams.take(i));
    assert(fams.take(i + 1).last() == fams[i]);
}

/// Whether one source register is translatable.
fn reg_wf_check(r: &crate::register::Register) -> (b: bool)
    ensures
        b == reg_wf(*r),
{
    if r.size > 0x1fff_ffff {
        return false;
    }
    let n = r.bitfields.len();
    let mut i: usize = 0;
    while i < n
        invariant
            n == r.bitfields@.len(),
            i <= n,
            r.size <= 0x1fff_ffff,
            forall|k: int| 0 <= k < i ==> (#[trigger] r.bitfields@[k]).mask != 0,
        decreases n - i,
    {
        if r.bitfields[i].mask == 0 {
            return false;
        }
        i += 1;
    }
    true
}

/// Whether one resolved instance is translatable.
fn inst_wf_check(p: &Instance) -> (b: bool)
    ensures
        b == inst_wf(*p),
{
    let n = p.registers.len();
    let mut i: usize = 0;
    while i < n
        invariant
            n == p.registers@.len(),
            i <= n,
            forall|k: int| 0 <= k < i ==> reg_wf(#[trigger] p.registers@[k]),
        decreases n - i,
    {
        if !reg_wf_check(&p.registers[i]) {
            return false;
        }
        i += 1;
    }
    true
}

/// Whether a resolved device is translatable: no data-space instance holds
/// a zero-mask bitfield or a register too large for a 32-bit bit count.
/// [`device`] demands this of its argument.
pub fn is_translatable(d: &crate::device::Device) -> (b: bool)
    ensures
        b == device_wf(*d),
{
    let nf = d.peripherals.len();
    let mut i: usize = 0;
    while i < nf
        invariant
            nf == d.peripherals@.len(),
            i <= nf,
            forall|k: int, m: int|
                #![trigger d.peripherals@[k].instances@[m]]
                0 <= k < i && 0 <= m < d.peripherals@[k].instances@.len() && data_space(
                    d.peripherals@[k].instances@[m],
                ) ==> inst_wf(d.peripherals@[k].instances@[m]),
        decreases nf - i,
    {
        let insts = &d.peripherals[i].instances;
        let nm = insts.len();
        let mut j: usize = 0;
        while j < nm
            invariant
                nf == d.peripherals@.len(),
                i < nf,
                nm == insts@.len(),
                j <= nm,
                insts@ == d.peripherals@[i as int].instances@,
                forall|k: int, m: int|
                    #![trigger d.peripherals@[k].instances@[m]]
                    0 <= k < i && 0 <= m < d.peripherals@[k].instances@.len() && data_space(
                        d.peripherals@[k].instances@[m],
                    ) ==> inst_wf(d.peripherals@[k].instances@[m]),
                forall|m: int|
                    0 <= m < j && data_space(#[trigger] d.peripherals@[i as int].instances@[m])
                        ==> inst_wf(d.peripherals@[i as int].instances@[m]),
            decreases nm - j,
        {
            let p = &insts[j];
            if str_eq(p.address_space.as_str(), "data") {
                if !inst_wf_check(p) {
                    return false;
                }
            }
            j += 1;
        }
        i += 1;
    }
    true
}

/// Translates a resolved device into the target schema.  Instances outside
/// the data address space are excluded by design; `_modules` is the modules
/// section the device resolved against, which resolution has already folded
/// into the instances.
pub fn device(dev: &crate::device::Device, _modules: &Vec<Module>) -> (out: Device)
    requires
        device_wf(*dev),
    ensures
        device_rel(out, *dev),
{
    let nf = dev.peripherals.len();
    let mut peripherals: Vec<Peripheral> = Vec::new();
    let mut i: usize = 0;
    while i < nf
        invariant
            nf == dev.peripherals@.len(),
            i <= nf,
            device_wf(*dev),
            peripherals@.len() == device_insts(dev.peripherals@.take(i as int)).len(),
            forall|k: int|
                0 <= k < peripherals@.len() ==> peripheral_rel(
                    #[trigger] peripherals@[k],
                    device_insts(dev.peripherals@.take(i as int))[k],
                ),
        decreases nf - i,
    {
        let insts = &dev.peripherals[i].instances;
        let nm = insts.len();
        let mut j: usize = 0;
        while j < nm
            invariant
                nf == dev.peripherals@.len(),
                i < nf,
                nm == insts@.len(),
                j <= nm,
                insts@ == dev.peripherals@[i as int].instances@,
                device_wf(*dev),
                peripherals@.len() == device_insts(dev.peripherals@.take(i as int)).len()
                    + insts@.take(j as int).filter(data_pred()).len(),
                forall|k: int|
                    0 <= k < peripherals@.len() ==> peripheral_rel(
                        #[trigger] peripherals@[k],
                        (device_insts(dev.peripherals@.take(i as int)) + insts@.take(
                            j as int,
                        ).filter(data_pred()))[k],
                    ),
            decreases nm - j,
        {
            proof {
                reveal(Seq::filter);
                assert(insts@.take(j as int + 1).drop_last() =~= insts@.take(j as int));
            }
            let p = &insts[j];
            if str_eq(p.address_space.as_str(), "data") {
                proof {
                    assert(data_space(dev.peripherals@[i as int].instances@[j as int]));
                    assert(inst_wf(dev.peripherals@[i as int].instances@[j as int]));
                }
                let tp = peripheral(p);
                peripherals.push(tp);
                proof {
                    assert((device_insts(dev.peripherals@.take(i as int)) + insts@.take(
                        j as int + 1,
                    ).filter(data_pred())) =~= (device_insts(dev.peripherals@.take(i as int))
                        + insts@.take(j as int).filter(data_pred())).push(insts@[j as int]));
                }
            }
            j += 1;
        }
        proof {
            assert(insts@.take(nm as int) =~= insts@);
            lemma_device_insts_push(dev.peripherals@, i as int);
        }
        i += 1;
    }
    proof {
        assert(dev.peripherals@.take(nf as int) =~= dev.peripherals@);
    }
    Device { name: dev.name.clone(), peripherals }
}

} // verus!
