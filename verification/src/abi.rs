//! The ABI manifest: the canonical descriptor of a unit's callable
//! methods, and its deterministic binary encoding.
//!
//! The manifest is a CBOR document: a three-entry map from
//! `constructor`, `setup` and `methods` to the two reserved roles
//! (each a method or null) and the array of ordinary methods; a method
//! is a two-entry map from `name` and `number` to its name and its
//! selector.  Every integer argument is encoded in its shortest form,
//! so the encoding of a table is unique and re-encoding an identical
//! table yields byte-identical output.

use vstd::prelude::*;

use crate::bytes::lit;
use crate::bytes::lit_bytes;
use crate::bytes::push_all;
use crate::extract::key_constructor;

verus! {

/// One callable entry point: its name and its numeric selector.
pub struct MethodDescriptor {
    pub name: Vec<u8>,
    pub number: u64,
}

/// The model of a method descriptor.
#[verifier::ext_equal]
pub struct MethodModel {
    pub name: Seq<u8>,
    pub number: u64,
}

impl View for MethodDescriptor {
    type V = MethodModel;

    open spec fn view(&self) -> MethodModel {
        MethodModel { name: self.name@, number: self.number }
    }
}

/// A unit's dispatch table: the reserved roles, and the ordinary
/// methods in their lexical order of first appearance.
pub struct DispatchTable {
    pub constructor: Option<MethodDescriptor>,
    pub setup: Option<MethodDescriptor>,
    pub methods: Vec<MethodDescriptor>,
}

/// The model of a dispatch table.
#[verifier::ext_equal]
pub struct TableModel {
    pub constructor: Option<MethodModel>,
    pub setup: Option<MethodModel>,
    pub methods: Seq<MethodModel>,
}

impl View for DispatchTable {
    type V = TableModel;

    open spec fn view(&self) -> TableModel {
        TableModel {
            constructor: match self.constructor {
                Some(m) => Some(m@),
                None => None,
            },
            setup: match self.setup {
                Some(m) => Some(m@),
                None => None,
            },
            methods: self.methods@.map(|i: int, m: MethodDescriptor| m@),
        }
    }
}

/// Descriptor of the reserved constructor role, which the dispatch
/// convention pins to selector 1.
#[allow(non_snake_case)]
pub fn Constructor() -> (d: MethodDescriptor)
    ensures
        d@.name == key_constructor(),
        d@.number == 1,
{
    MethodDescriptor { name: lit_bytes("Constructor"), number: 1 }
}

/// The head of a CBOR item: three bits of major type, then the
/// argument in its shortest form.
pub open spec fn cbor_head(major: u8, v: u64) -> Seq<u8> {
    let m = (major as int) * 32;
    if v < 24 {
        seq![(m + v) as u8]
    } else if v < 256 {
        seq![(m + 24) as u8, v as u8]
    } else if v < 65536 {
        seq![(m + 25) as u8, (v as int / 256) as u8, (v as int % 256) as u8]
    } else if v < 4294967296 {
        seq![
            (m + 26) as u8,
            (v as int / 16777216) as u8,
            ((v as int / 65536) % 256) as u8,
            ((v as int / 256) % 256) as u8,
            (v as int % 256) as u8,
        ]
    } else {
        seq![
            (m + 27) as u8,
            (v as int / 72057594037927936) as u8,
            ((v as int / 281474976710656) % 256) as u8,
            ((v as int / 1099511627776) % 256) as u8,
            ((v as int / 4294967296) % 256) as u8,
            ((v as int / 16777216) % 256) as u8,
            ((v as int / 65536) % 256) as u8,
            ((v as int / 256) % 256) as u8,
            (v as int % 256) as u8,
        ]
    }
}

/// A CBOR text string: the head with major type 3, then the bytes.
pub open spec fn cbor_text(s: Seq<u8>) -> Seq<u8> {
    cbor_head(3, s.len() as u64) + s
}

/// The CBOR null value.
pub open spec fn cbor_null() -> Seq<u8> {
    seq![246u8]
}

/// The encoding of one method: a map from `name` to its name and
/// `number` to its selector.
pub open spec fn method_bytes(m: MethodModel) -> Seq<u8> {
    cbor_head(5, 2) + cbor_text(lit("name")) + cbor_text(m.name) + cbor_text(lit("number"))
        + cbor_head(0, m.number)
}

/// The encoding of an optional role: null when the role is absent.
pub open spec fn role_bytes(o: Option<MethodModel>) -> Seq<u8> {
    match o {
        Some(m) => method_bytes(m),
        None => cbor_null(),
    }
}

/// The concatenated encodings of the method list, in order.
pub open spec fn methods_bytes(ms: Seq<MethodModel>) -> Seq<u8>
    decreases ms.len(),
{
    if ms.len() == 0 {
        Seq::empty()
    } else {
        methods_bytes(ms.drop_last()) + method_bytes(ms.last())
    }
}

/// The canonical manifest encoding of a dispatch table.
pub open spec fn manifest_bytes(t: TableModel) -> Seq<u8> {
    cbor_head(5, 3) + cbor_text(lit("constructor")) + role_bytes(t.constructor) + cbor_text(
        lit("setup"),
    ) + role_bytes(t.setup) + cbor_text(lit("methods")) + cbor_head(4, t.methods.len() as u64)
        + methods_bytes(t.methods)
}

/// Appends the head of a CBOR item.
fn push_head(out: &mut Vec<u8>, major: u8, v: u64)
    requires
        major < 8,
    ensures
        final(out)@ == old(out)@ + cbor_head(major, v),
{
    let m: u8 = major * 32;
    if v < 24 {
        out.push(m + (v as u8));
        proof {
            assert(old(out)@ + cbor_head(major, v) =~= out@);
        }
    } else if v < 256 {
        out.push(m + 24);
        out.push(v as u8);
        proof {
            assert(old(out)@ + cbor_head(major, v) =~= out@);
        }
    } else if v < 65536 {
        out.push(m + 25);
        out.push((v / 256) as u8);
        out.push((v % 256) as u8);
        proof {
            assert(old(out)@ + cbor_head(major, v) =~= out@);
        }
    } else if v < 4294967296 {
        out.push(m + 26);
        out.push((v / 16777216) as u8);
        out.push(((v / 65536) % 256) as u8);
        out.push(((v / 256) % 256) as u8);
        out.push((v % 256) as u8);
        proof {
            assert(old(out)@ + cbor_head(major, v) =~= out@);
        }
    } else {
        out.push(m + 27);
        out.push((v / 72057594037927936) as u8);
        out.push(((v / 281474976710656) % 256) as u8);
        out.push(((v / 1099511627776) % 256) as u8);
        out.push(((v / 4294967296) % 256) as u8);
        out.push(((v / 16777216) % 256) as u8);
        out.push(((v / 65536) % 256) as u8);
        out.push(((v / 256) % 256) as u8);
        out.push((v % 256) as u8);
        proof {
            assert(old(out)@ + cbor_head(major, v) =~= out@);
        }
    }
}

/// Appends a CBOR text string.
fn push_text(out: &mut Vec<u8>, s: &[u8])
    ensures
        final(out)@ == old(out)@ + cbor_text(s@),
{
    push_head(out, 3, s.len() as u64);
    push_all(out, s);
    proof {
        assert(old(out)@ + cbor_head(3, s@.len() as u64) + s@ =~= old(out)@ + cbor_text(s@));
    }
}

/// Appends the encoding of one method.
fn push_method(out: &mut Vec<u8>, m: &MethodDescriptor)
    ensures
        final(out)@ == old(out)@ + method_bytes(m@),
{
    push_head(out, 5, 2);
    let name_key = lit_bytes("name");
    push_text(out, name_key.as_slice());
    push_text(out, m.name.as_slice());
    let number_key = lit_bytes("number");
    push_text(out, number_key.as_slice());
    push_head(out, 0, m.number);
    proof {
        assert(old(out)@ + method_bytes(m@) =~= out@);
    }
}

/// Appends the encoding of an optional role.
fn push_role(out: &mut Vec<u8>, o: &Option<MethodDescriptor>)
    ensures
        final(out)@ == old(out)@ + role_bytes(
            match o {
                Some(m) => Some(m@),
                None => None,
            },
        ),
{
    match o {
        Some(m) => push_method(out, m),
        None => {
            out.push(246);
            proof {
                assert(old(out)@ + cbor_null() =~= out@);
            }
        },
    }
}

/// Encodes a dispatch table as its canonical manifest: exactly the
/// bytes of [`manifest_bytes`].
pub fn encode_manifest(t: &DispatchTable) -> (r: Vec<u8>)
    ensures
        r@ == manifest_bytes(t@),
{
    let mut out: Vec<u8> = Vec::new();
    push_head(&mut out, 5, 3);
    let cons_key = lit_bytes("constructor");
    push_text(&mut out, cons_key.as_slice());
    push_role(&mut out, &t.constructor);
    let setup_key = lit_bytes("setup");
    push_text(&mut out, setup_key.as_slice());
    push_role(&mut out, &t.setup);
    let methods_key = lit_bytes("methods");
    push_text(&mut out, methods_key.as_slice());
    push_head(&mut out, 4, t.methods.len() as u64);
    let ghost pfx = out@;
    let mut i: usize = 0;
    while i < t.methods.len()
        invariant
            i <= t.methods@.len(),
            out@ == pfx + methods_bytes(t@.methods.take(i as int)),
        decreases t.methods@.len() - i,
    {
        proof {
            assert(t@.methods[i as int] == t.methods@[i as int]@);
            assert(t@.methods.take(i + 1).drop_last() =~= t@.methods.take(i as int));
            assert(t@.methods.take(i + 1).last() == t@.methods[i as int]);
        }
        push_method(&mut out, &t.methods[i]);
        proof {
            assert(out@ =~= pfx + methods_bytes(t@.methods.take(i + 1)));
        }
        i += 1;
    }
    proof {
        assert(t@.methods.take(t.methods@.len() as int) =~= t@.methods);
        assert(pfx + methods_bytes(t@.methods) =~= manifest_bytes(t@));
    }
    out
}

/// Equal dispatch tables have byte-identical manifests: the encoding
/// is a function of the table's model alone, with every argument in
/// shortest form, so a rebuild of an unchanged unit reproduces its
/// manifest exactly.
pub proof fn lemma_manifest_deterministic(a: TableModel, b: TableModel)
    requires
        a == b,
    ensures
        manifest_bytes(a) == manifest_bytes(b),
{
}

/// Every table has a manifest: the encoding is never empty, and it
/// always opens with the head of the three-entry map, whether or not
/// any ordinary method is described.
pub proof fn lemma_manifest_always_present(t: TableModel)
    ensures
        manifest_bytes(t).len() > 0,
        manifest_bytes(t)[0] == 0xa3,
{
}

} // verus!
