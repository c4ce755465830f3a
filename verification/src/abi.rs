//! The ABI of a Move module: its public functions and its structs, encoded
//! deterministically and hashed, so that an upgrade can be checked against the interface
//! it replaces.
use vstd::prelude::*;
use vstd::utf8::encode_utf8;

use crate::publisher::{blake3_digest, blake3_hash, u32_le, u32_le_bytes};
use crate::text::extend_bytes;
use crate::write_set::{
    bytes_less, bytes_lt, lemma_bytes_lt_asymmetric, lemma_bytes_lt_irreflexive,
    lemma_bytes_lt_total, lemma_bytes_lt_transitive,
};

verus! {

/// A type in a function or field signature.
pub enum SignatureToken {
    Bool,
    U8,
    U16,
    U32,
    U64,
    U128,
    U256,
    Address,
    Signer,
    Vector(Box<SignatureToken>),
    /// A struct, by its handle index.
    Struct(u16),
    /// A generic struct, by its handle index, with its type arguments.
    StructInstantiation(u16, Vec<SignatureToken>),
    Reference(Box<SignatureToken>),
    MutableReference(Box<SignatureToken>),
    /// A type parameter, by its index.
    TypeParameter(u16),
    /// A function type: parameters, results and the abilities byte.
    Function(Vec<SignatureToken>, Vec<SignatureToken>, u8),
}

/// A `u16` as two little-endian bytes.
pub open spec fn u16_le(n: u16) -> Seq<u8> {
    seq![(n % 256) as u8, (n / 256) as u8]
}

/// The encoding of one token: a tag byte, then what the token carries.
pub open spec fn token_bytes(t: SignatureToken) -> Seq<u8>
    decreases t,
{
    match t {
        SignatureToken::Bool => seq![0x01u8],
        SignatureToken::U8 => seq![0x02u8],
        SignatureToken::U16 => seq![0x03u8],
        SignatureToken::U32 => seq![0x04u8],
        SignatureToken::U64 => seq![0x05u8],
        SignatureToken::U128 => seq![0x06u8],
        SignatureToken::U256 => seq![0x07u8],
        SignatureToken::Address => seq![0x08u8],
        SignatureToken::Signer => seq![0x09u8],
        SignatureToken::Vector(inner) => seq![0x0Au8] + token_bytes(*inner),
        SignatureToken::Struct(idx) => seq![0x0Bu8] + u16_le(idx),
        SignatureToken::StructInstantiation(idx, args) => seq![0x0Cu8] + u16_le(idx) + seq![
            args@.len() as u8,
        ] + tokens_bytes(args@),
        SignatureToken::Reference(inner) => seq![0x0Du8] + token_bytes(*inner),
        SignatureToken::MutableReference(inner) => seq![0x0Eu8] + token_bytes(*inner),
        SignatureToken::TypeParameter(idx) => seq![0x0Fu8] + u16_le(idx),
        SignatureToken::Function(params, results, abilities) => seq![0x10u8, params@.len() as u8]
            + tokens_bytes(params@) + seq![results@.len() as u8] + tokens_bytes(results@) + seq![
            abilities,
        ],
    }
}

/// The encodings of a sequence of tokens, one after the other.
pub open spec fn tokens_bytes(ts: Seq<SignatureToken>) -> Seq<u8>
    decreases ts,
{
    if ts.len() == 0 {
        Seq::empty()
    } else {
        tokens_bytes(ts.drop_last()) + token_bytes(ts.last())
    }
}

/// Appends the encoding of `token` to `out`.
pub fn encode_token(token: &SignatureToken, out: &mut Vec<u8>)
    ensures
        final(out)@ == old(out)@ + token_bytes(*token),
    decreases token,
{
    match token {
        SignatureToken::Bool => out.push(0x01),
        SignatureToken::U8 => out.push(0x02),
        SignatureToken::U16 => out.push(0x03),
        SignatureToken::U32 => out.push(0x04),
        SignatureToken::U64 => out.push(0x05),
        SignatureToken::U128 => out.push(0x06),
        SignatureToken::U256 => out.push(0x07),
        SignatureToken::Address => out.push(0x08),
        SignatureToken::Signer => out.push(0x09),
        SignatureToken::Vector(inner) => {
            out.push(0x0A);
            encode_token(inner, out);
        },
        SignatureToken::Struct(idx) => {
            out.push(0x0B);
            out.push((*idx % 256) as u8);
            out.push((*idx / 256) as u8);
        },
        SignatureToken::StructInstantiation(idx, args) => {
            out.push(0x0C);
            out.push((*idx % 256) as u8);
            out.push((*idx / 256) as u8);
            out.push(args.len() as u8);
            encode_tokens(args, out);
        },
        SignatureToken::Reference(inner) => {
            out.push(0x0D);
            encode_token(inner, out);
        },
        SignatureToken::MutableReference(inner) => {
            out.push(0x0E);
            encode_token(inner, out);
        },
        SignatureToken::TypeParameter(idx) => {
            out.push(0x0F);
            out.push((*idx % 256) as u8);
            out.push((*idx / 256) as u8);
        },
        SignatureToken::Function(params, results, abilities) => {
            out.push(0x10);
            out.push(params.len() as u8);
            encode_tokens(params, out);
            out.push(results.len() as u8);
            encode_tokens(results, out);
            out.push(*abilities);
        },
    }
}

/// Appends the encodings of `tokens` to `out`, in order.
pub fn encode_tokens(tokens: &Vec<SignatureToken>, out: &mut Vec<u8>)
    ensures
        final(out)@ == old(out)@ + tokens_bytes(tokens@),
    decreases tokens@,
{
    let mut i: usize = 0;
    while i < tokens.len()
        invariant
            i <= tokens@.len(),
            out@ == old(out)@ + tokens_bytes(tokens@.take(i as int)),
        decreases tokens@.len() - i,
    {
        assert(decreases_to!(tokens@ => tokens@[i as int]));
        encode_token(&tokens[i], out);
        assert(tokens@.take(i as int + 1).drop_last() =~= tokens@.take(i as int));
        i += 1;
    }
    assert(tokens@.take(tokens@.len() as int) =~= tokens@);
}

/// The encoding of a signature.
pub fn signature_tokens_to_bytes(tokens: &Vec<SignatureToken>) -> (r: Vec<u8>)
    ensures
        r@ == tokens_bytes(tokens@),
{
    let mut bytes: Vec<u8> = Vec::new();
    encode_tokens(tokens, &mut bytes);
    assert(bytes@ =~= tokens_bytes(tokens@));
    bytes
}

/// The encoding of one token.
pub fn signature_token_to_bytes(token: &SignatureToken) -> (r: Vec<u8>)
    ensures
        r@ == token_bytes(*token),
{
    let mut bytes: Vec<u8> = Vec::new();
    encode_token(token, &mut bytes);
    assert(bytes@ =~= token_bytes(*token));
    bytes
}

/// A function of a module, as the ABI sees it.
pub struct FunctionAbi {
    pub name: String,
    /// The visibility byte of the binary format: 0 is private.
    pub visibility: u8,
    pub is_entry: bool,
    /// The ability set of each type parameter, as its byte in the binary format.
    pub type_parameters: Vec<u8>,
    pub parameters: Vec<SignatureToken>,
    pub returns: Vec<SignatureToken>,
}

/// A named field and its type.
pub struct FieldAbi {
    pub name: String,
    pub signature: SignatureToken,
}

/// A variant of an enum-like struct.
pub struct VariantAbi {
    pub name: String,
    pub fields: Vec<FieldAbi>,
}

/// How a struct's fields are given.
pub enum StructFieldsAbi {
    Native,
    Declared(Vec<FieldAbi>),
    DeclaredVariants(Vec<VariantAbi>),
}

/// A struct of a module, as the ABI sees it.
pub struct StructAbi {
    pub name: String,
    pub abilities: u8,
    pub fields: StructFieldsAbi,
}

/// The public surface of a compiled module.
pub struct ModuleAbi {
    /// The module's own name.
    pub name: String,
    pub functions: Vec<FunctionAbi>,
    pub structs: Vec<StructAbi>,
}

/// The visibility byte of private functions.
pub const VISIBILITY_PRIVATE: u8 = 0;

/// The UTF-8 bytes of a string.
pub open spec fn text_bytes(s: String) -> Seq<u8> {
    encode_utf8(s@)
}

/// The UTF-8 bytes of a string.
pub fn string_bytes(s: &String) -> (r: Vec<u8>)
    ensures
        r@ == text_bytes(*s),
{
    let b = s.as_str().as_bytes();
    let mut v: Vec<u8> = Vec::new();
    extend_bytes(&mut v, b);
    assert(v@ =~= text_bytes(*s));
    v
}

// ── Stable ordering by name ─────────────────────────────────────────────

/// Inserts index `i` into `order` after every index whose key is not greater than `i`'s,
/// so that equal keys keep their relative order.
pub open spec fn insert_by_key(order: Seq<usize>, keys: Seq<Seq<u8>>, i: usize) -> Seq<usize>
    decreases order.len(),
{
    if order.len() == 0 {
        seq![i]
    } else if bytes_lt(keys[i as int], keys[order[0] as int]) {
        seq![i] + order
    } else {
        seq![order[0]] + insert_by_key(order.drop_first(), keys, i)
    }
}

/// The indices `0..n` ordered by key, equal keys in index order (a stable sort).
pub open spec fn stable_order(keys: Seq<Seq<u8>>, n: nat) -> Seq<usize>
    decreases n,
{
    if n == 0 {
        Seq::empty()
    } else {
        insert_by_key(stable_order(keys, (n - 1) as nat), keys, (n - 1) as usize)
    }
}

proof fn lemma_insert_by_key_at(order: Seq<usize>, keys: Seq<Seq<u8>>, i: usize, p: int)
    requires
        0 <= p <= order.len(),
        forall|j: int| 0 <= j < p ==> !bytes_lt(keys[i as int], #[trigger] keys[order[j] as int]),
        p < order.len() ==> bytes_lt(keys[i as int], keys[order[p] as int]),
    ensures
        insert_by_key(order, keys, i) == order.take(p) + seq![i] + order.skip(p),
    decreases order.len(),
{
    if order.len() == 0 {
        assert(order.take(p) + seq![i] + order.skip(p) =~= seq![i]);
    } else if p == 0 {
        assert(order.take(p) + seq![i] + order.skip(p) =~= seq![i] + order);
    } else {
        let rest = order.drop_first();
        assert forall|j: int| 0 <= j < p - 1 implies !bytes_lt(
            keys[i as int],
            #[trigger] keys[rest[j] as int],
        ) by {
            assert(rest[j] == order[j + 1]);
        }
        if p - 1 < rest.len() {
            assert(rest[p - 1] == order[p]);
        }
        assert(order[0] == order[0]);
        assert(!bytes_lt(keys[i as int], keys[order[0] as int]));
        lemma_insert_by_key_at(rest, keys, i, p - 1);
        assert(order.take(p) + seq![i] + order.skip(p) =~= seq![order[0]] + (rest.take(p - 1)
            + seq![i] + rest.skip(p - 1)));
    }
}

proof fn lemma_stable_order_bounds(keys: Seq<Seq<u8>>, n: nat)
    requires
        n <= usize::MAX,
    ensures
        stable_order(keys, n).len() == n,
        forall|k: int| 0 <= k < n ==> #[trigger] stable_order(keys, n)[k] < n,
    decreases n,
{
    if n > 0 {
        let prev = stable_order(keys, (n - 1) as nat);
        lemma_stable_order_bounds(keys, (n - 1) as nat);
        lemma_insert_by_key_bounds(prev, keys, (n - 1) as usize, n);
    }
}

proof fn lemma_insert_by_key_bounds(order: Seq<usize>, keys: Seq<Seq<u8>>, i: usize, n: nat)
    requires
        i < n,
        forall|k: int| 0 <= k < order.len() ==> #[trigger] order[k] < n,
    ensures
        insert_by_key(order, keys, i).len() == order.len() + 1,
        forall|k: int|
            0 <= k < insert_by_key(order, keys, i).len() ==> #[trigger] insert_by_key(
                order,
                keys,
                i,
            )[k] < n,
    decreases order.len(),
{
    if order.len() > 0 && !bytes_lt(keys[i as int], keys[order[0] as int]) {
        let rest = order.drop_first();
        assert forall|k: int| 0 <= k < rest.len() implies #[trigger] rest[k] < n by {
            assert(rest[k] == order[k + 1]);
        }
        lemma_insert_by_key_bounds(rest, keys, i, n);
        let r = insert_by_key(order, keys, i);
        assert forall|k: int| 0 <= k < r.len() implies #[trigger] r[k] < n by {
            if k > 0 {
                assert(r[k] == insert_by_key(rest, keys, i)[k - 1]);
            }
        }
    }
}

/// The views of a sequence of byte vectors.
pub open spec fn byte_views(vs: Seq<Vec<u8>>) -> Seq<Seq<u8>> {
    vs.map_values(|v: Vec<u8>| v@)
}

/// The indices of `keys`, ordered by key; equal keys keep their order.
pub fn stable_sort_indices(keys: &Vec<Vec<u8>>) -> (r: Vec<usize>)
    ensures
        r@ == stable_order(byte_views(keys@), keys@.len()),
        r@.len() == keys@.len(),
        forall|k: int| 0 <= k < r@.len() ==> #[trigger] r@[k] < keys@.len(),
{
    let ghost kv = byte_views(keys@);
    let mut order: Vec<usize> = Vec::new();
    let mut i: usize = 0;
    while i < keys.len()
        invariant
            i <= keys@.len(),
            kv == byte_views(keys@),
            kv.len() == keys@.len(),
            order@ == stable_order(kv, i as nat),
            order@.len() == i,
            forall|k: int| 0 <= k < order@.len() ==> #[trigger] order@[k] < i,
        decreases keys@.len() - i,
    {
        proof {
            lemma_stable_order_bounds(kv, i as nat);
        }
        let mut p: usize = 0;
        while p < order.len()
            invariant
                p <= order@.len(),
                i < keys@.len(),
                kv == byte_views(keys@),
                kv.len() == keys@.len(),
                order@.len() == i,
                forall|k: int| 0 <= k < order@.len() ==> #[trigger] order@[k] < i,
                forall|j: int| 0 <= j < p ==> !bytes_lt(kv[i as int], #[trigger] kv[order@[j] as int]),
            ensures
                p <= order@.len(),
                forall|j: int| 0 <= j < p ==> !bytes_lt(kv[i as int], #[trigger] kv[order@[j] as int]),
                p < order@.len() ==> bytes_lt(kv[i as int], kv[order@[p as int] as int]),
            decreases order@.len() - p,
        {
            let o = order[p];
            assert(kv[o as int] == keys@[o as int]@);
            assert(kv[i as int] == keys@[i as int]@);
            if bytes_less(keys[i].as_slice(), keys[o].as_slice()) {
                break;
            }
            p += 1;
        }
        proof {
            lemma_insert_by_key_at(order@, kv, i, p as int);
            lemma_insert_by_key_bounds(order@, kv, i, (i + 1) as nat);
        }
        order.insert(p, i);
        assert(order@ =~= stable_order(kv, i as nat).take(p as int) + seq![i] + stable_order(
            kv,
            i as nat,
        ).skip(p as int));
        i += 1;
    }
    order
}

/// The records taken in the given order, one after the other.
pub open spec fn concat_in_order(records: Seq<Seq<u8>>, order: Seq<usize>) -> Seq<u8>
    decreases order.len(),
{
    if order.len() == 0 {
        Seq::empty()
    } else {
        concat_in_order(records, order.drop_last()) + records[order.last() as int]
    }
}

/// Appends the records in the given order.
fn append_in_order(out: &mut Vec<u8>, records: &Vec<Vec<u8>>, order: &Vec<usize>)
    requires
        forall|k: int| 0 <= k < order@.len() ==> #[trigger] order@[k] < records@.len(),
    ensures
        final(out)@ == old(out)@ + concat_in_order(byte_views(records@), order@),
{
    let mut j: usize = 0;
    while j < order.len()
        invariant
            j <= order@.len(),
            forall|k: int| 0 <= k < order@.len() ==> #[trigger] order@[k] < records@.len(),
            out@ == old(out)@ + concat_in_order(byte_views(records@), order@.take(j as int)),
        decreases order@.len() - j,
    {
        let idx = order[j];
        extend_bytes(out, records[idx].as_slice());
        assert(order@.take(j as int + 1).drop_last() =~= order@.take(j as int));
        assert(byte_views(records@)[idx as int] == records@[idx as int]@);
        j += 1;
    }
    assert(order@.take(order@.len() as int) =~= order@);
}

// ── Records ─────────────────────────────────────────────────────────────

pub open spec fn entry_byte(is_entry: bool) -> u8 {
    if is_entry {
        1
    } else {
        0
    }
}

/// A function's record: name, visibility, entry flag, then the type parameters' ability
/// bytes, the parameter encodings and the result encodings, each after its length.
pub open spec fn function_record(f: FunctionAbi) -> Seq<u8> {
    let params = tokens_bytes(f.parameters@);
    let results = tokens_bytes(f.returns@);
    text_bytes(f.name) + seq![f.visibility, entry_byte(f.is_entry)] + u32_le(
        f.type_parameters@.len() as u32,
    ) + f.type_parameters@ + u32_le(params.len() as u32) + params + u32_le(results.len() as u32)
        + results
}

/// A field's record: its name and its type encoding, each after its length.
pub open spec fn field_record(f: FieldAbi) -> Seq<u8> {
    let sig = token_bytes(f.signature);
    u32_le(text_bytes(f.name).len() as u32) + text_bytes(f.name) + u32_le(sig.len() as u32) + sig
}

pub open spec fn fields_bytes(fs: Seq<FieldAbi>) -> Seq<u8>
    decreases fs.len(),
{
    if fs.len() == 0 {
        Seq::empty()
    } else {
        fields_bytes(fs.drop_last()) + field_record(fs.last())
    }
}

/// A variant's record: its name after its length, then its fields.
pub open spec fn variant_record(v: VariantAbi) -> Seq<u8> {
    u32_le(text_bytes(v.name).len() as u32) + text_bytes(v.name) + fields_bytes(v.fields@)
}

pub open spec fn variants_bytes(vs: Seq<VariantAbi>) -> Seq<u8>
    decreases vs.len(),
{
    if vs.len() == 0 {
        Seq::empty()
    } else {
        variants_bytes(vs.drop_last()) + variant_record(vs.last())
    }
}

/// The field layout: `0xFF` for a native struct, the fields for a declared one, `0xFE`
/// then the variants for an enum-like one.
pub open spec fn struct_fields_bytes(f: StructFieldsAbi) -> Seq<u8> {
    match f {
        StructFieldsAbi::Native => seq![0xFFu8],
        StructFieldsAbi::Declared(fs) => fields_bytes(fs@),
        StructFieldsAbi::DeclaredVariants(vs) => seq![0xFEu8] + variants_bytes(vs@),
    }
}

/// A struct's record: name, abilities, then the field layout after its length.
pub open spec fn struct_record(s: StructAbi) -> Seq<u8> {
    let layout = struct_fields_bytes(s.fields);
    text_bytes(s.name) + seq![s.abilities] + u32_le(layout.len() as u32) + layout
}

pub open spec fn is_public(f: FunctionAbi) -> bool {
    f.visibility != VISIBILITY_PRIVATE
}

/// The non-private functions, in their order.
pub open spec fn public_functions(fs: Seq<FunctionAbi>) -> Seq<FunctionAbi>
    decreases fs.len(),
{
    if fs.len() == 0 {
        Seq::empty()
    } else if is_public(fs.last()) {
        public_functions(fs.drop_last()).push(fs.last())
    } else {
        public_functions(fs.drop_last())
    }
}

/// The bytes `functions:`.
pub open spec fn functions_tag() -> Seq<u8> {
    seq![0x66u8, 0x75, 0x6e, 0x63, 0x74, 0x69, 0x6f, 0x6e, 0x73, 0x3a]
}

/// The bytes `structs:`.
pub open spec fn structs_tag() -> Seq<u8> {
    seq![0x73u8, 0x74, 0x72, 0x75, 0x63, 0x74, 0x73, 0x3a]
}

/// The function part of the ABI: the tag, the count of non-private functions, and their
/// records ordered by name.
pub open spec fn functions_section(fs: Seq<FunctionAbi>) -> Seq<u8> {
    let pubs = public_functions(fs);
    functions_tag() + u32_le(pubs.len() as u32) + concat_in_order(
        pubs.map_values(|f: FunctionAbi| function_record(f)),
        stable_order(pubs.map_values(|f: FunctionAbi| text_bytes(f.name)), pubs.len()),
    )
}

/// The struct part of the ABI: the tag, the count of structs, and their records ordered by
/// name.
pub open spec fn structs_section(ss: Seq<StructAbi>) -> Seq<u8> {
    structs_tag() + u32_le(ss.len() as u32) + concat_in_order(
        ss.map_values(|s: StructAbi| struct_record(s)),
        stable_order(ss.map_values(|s: StructAbi| text_bytes(s.name)), ss.len()),
    )
}

/// The bytes the ABI hash of a module is taken of.
pub open spec fn spec_module_abi_preimage(m: ModuleAbi) -> Seq<u8> {
    functions_section(m.functions@) + structs_section(m.structs@)
}

/// The ABI hash of a module.
pub open spec fn spec_module_abi_hash(m: ModuleAbi) -> Seq<u8> {
    blake3_digest(spec_module_abi_preimage(m))
}

fn function_record_bytes(f: &FunctionAbi) -> (r: Vec<u8>)
    ensures
        r@ == function_record(*f),
{
    let params = signature_tokens_to_bytes(&f.parameters);
    let results = signature_tokens_to_bytes(&f.returns);
    let mut out = string_bytes(&f.name);
    out.push(f.visibility);
    out.push(if f.is_entry { 1u8 } else { 0u8 });
    extend_bytes(&mut out, u32_le_bytes(f.type_parameters.len() as u32).as_slice());
    extend_bytes(&mut out, f.type_parameters.as_slice());
    extend_bytes(&mut out, u32_le_bytes(params.len() as u32).as_slice());
    extend_bytes(&mut out, params.as_slice());
    extend_bytes(&mut out, u32_le_bytes(results.len() as u32).as_slice());
    extend_bytes(&mut out, results.as_slice());
    assert(out@ =~= function_record(*f));
    out
}

fn append_field_record(out: &mut Vec<u8>, f: &FieldAbi)
    ensures
        final(out)@ == old(out)@ + field_record(*f),
{
    let name = string_bytes(&f.name);
    let sig = signature_token_to_bytes(&f.signature);
    extend_bytes(out, u32_le_bytes(name.len() as u32).as_slice());
    extend_bytes(out, name.as_slice());
    extend_bytes(out, u32_le_bytes(sig.len() as u32).as_slice());
    extend_bytes(out, sig.as_slice());
    assert(out@ =~= old(out)@ + field_record(*f));
}

fn append_fields(out: &mut Vec<u8>, fs: &Vec<FieldAbi>)
    ensures
        final(out)@ == old(out)@ + fields_bytes(fs@),
{
    let mut i: usize = 0;
    while i < fs.len()
        invariant
            i <= fs@.len(),
            out@ == old(out)@ + fields_bytes(fs@.take(i as int)),
        decreases fs@.len() - i,
    {
        append_field_record(out, &fs[i]);
        assert(fs@.take(i as int + 1).drop_last() =~= fs@.take(i as int));
        i += 1;
    }
    assert(fs@.take(fs@.len() as int) =~= fs@);
}

fn append_variants(out: &mut Vec<u8>, vs: &Vec<VariantAbi>)
    ensures
        final(out)@ == old(out)@ + variants_bytes(vs@),
{
    let mut i: usize = 0;
    while i < vs.len()
        invariant
            i <= vs@.len(),
            out@ == old(out)@ + variants_bytes(vs@.take(i as int)),
        decreases vs@.len() - i,
    {
        let v = &vs[i];
        let ghost before = out@;
        let name = string_bytes(&v.name);
        extend_bytes(out, u32_le_bytes(name.len() as u32).as_slice());
        extend_bytes(out, name.as_slice());
        append_fields(out, &v.fields);
        assert(out@ =~= before + variant_record(*v));
        assert(vs@.take(i as int + 1).drop_last() =~= vs@.take(i as int));
        i += 1;
    }
    assert(vs@.take(vs@.len() as int) =~= vs@);
}

fn struct_record_bytes(st: &StructAbi) -> (r: Vec<u8>)
    ensures
        r@ == struct_record(*st),
{
    let mut layout: Vec<u8> = Vec::new();
    match &st.fields {
        StructFieldsAbi::Native => {
            layout.push(0xFF);
        },
        StructFieldsAbi::Declared(fs) => {
            append_fields(&mut layout, fs);
        },
        StructFieldsAbi::DeclaredVariants(vs) => {
            layout.push(0xFE);
            append_variants(&mut layout, vs);
        },
    }
    assert(layout@ =~= struct_fields_bytes(st.fields));
    let mut out = string_bytes(&st.name);
    out.push(st.abilities);
    extend_bytes(&mut out, u32_le_bytes(layout.len() as u32).as_slice());
    extend_bytes(&mut out, layout.as_slice());
    assert(out@ =~= struct_record(*st));
    out
}

fn functions_section_bytes(functions: &Vec<FunctionAbi>) -> (r: Vec<u8>)
    ensures
        r@ == functions_section(functions@),
{
    let ghost fs = functions@;
    let mut keys: Vec<Vec<u8>> = Vec::new();
    let mut records: Vec<Vec<u8>> = Vec::new();
    let mut i: usize = 0;
    while i < functions.len()
        invariant
            i <= fs.len(),
            fs == functions@,
            byte_views(keys@) == public_functions(fs.take(i as int)).map_values(
                |f: FunctionAbi| text_bytes(f.name),
            ),
            byte_views(records@) == public_functions(fs.take(i as int)).map_values(
                |f: FunctionAbi| function_record(f),
            ),
        decreases fs.len() - i,
    {
        let f = &functions[i];
        let ghost prev = public_functions(fs.take(i as int));
        assert(fs.take(i as int + 1).drop_last() =~= fs.take(i as int));
        assert(fs.take(i as int + 1).last() == fs[i as int]);
        if f.visibility != VISIBILITY_PRIVATE {
            let ghost kb = byte_views(keys@);
            let ghost rb = byte_views(records@);
            let k = string_bytes(&f.name);
            let rec = function_record_bytes(f);
            keys.push(k);
            records.push(rec);
            assert(byte_views(keys@) =~= kb.push(k@));
            assert(byte_views(records@) =~= rb.push(rec@));
            assert(prev.push(*f).map_values(|f: FunctionAbi| text_bytes(f.name)) =~= prev.map_values(
                |f: FunctionAbi| text_bytes(f.name),
            ).push(text_bytes(f.name)));
            assert(prev.push(*f).map_values(|f: FunctionAbi| function_record(f))
                =~= prev.map_values(|f: FunctionAbi| function_record(f)).push(
                function_record(*f),
            ));
        }
        i += 1;
    }
    assert(fs.take(fs.len() as int) =~= fs);
    assert(byte_views(keys@).len() == keys@.len());
    assert(byte_views(records@).len() == records@.len());
    let order = stable_sort_indices(&keys);
    let mut out: Vec<u8> = vec![0x66u8, 0x75, 0x6e, 0x63, 0x74, 0x69, 0x6f, 0x6e, 0x73, 0x3a];
    assert(out@ =~= functions_tag());
    extend_bytes(&mut out, u32_le_bytes(keys.len() as u32).as_slice());
    append_in_order(&mut out, &records, &order);
    assert(out@ =~= functions_section(fs));
    out
}

fn structs_section_bytes(structs: &Vec<StructAbi>) -> (r: Vec<u8>)
    ensures
        r@ == structs_section(structs@),
{
    let ghost ss = structs@;
    let mut keys: Vec<Vec<u8>> = Vec::new();
    let mut records: Vec<Vec<u8>> = Vec::new();
    let mut j: usize = 0;
    while j < structs.len()
        invariant
            j <= ss.len(),
            ss == structs@,
            byte_views(keys@) == ss.take(j as int).map_values(|s: StructAbi| text_bytes(s.name)),
            byte_views(records@) == ss.take(j as int).map_values(|s: StructAbi| struct_record(s)),
        decreases ss.len() - j,
    {
        let st = &structs[j];
        let ghost kb = byte_views(keys@);
        let ghost rb = byte_views(records@);
        let k = string_bytes(&st.name);
        let rec = struct_record_bytes(st);
        keys.push(k);
        records.push(rec);
        assert(byte_views(keys@) =~= kb.push(k@));
        assert(byte_views(records@) =~= rb.push(rec@));
        assert(ss.take(j as int + 1) =~= ss.take(j as int).push(*st));
        assert(ss.take(j as int).push(*st).map_values(|s: StructAbi| text_bytes(s.name))
            =~= ss.take(j as int).map_values(|s: StructAbi| text_bytes(s.name)).push(
            text_bytes(st.name),
        ));
        assert(ss.take(j as int).push(*st).map_values(|s: StructAbi| struct_record(s))
            =~= ss.take(j as int).map_values(|s: StructAbi| struct_record(s)).push(
            struct_record(*st),
        ));
        j += 1;
    }
    assert(ss.take(ss.len() as int) =~= ss);
    assert(byte_views(keys@).len() == keys@.len());
    assert(byte_views(records@).len() == records@.len());
    let order = stable_sort_indices(&keys);
    let mut out: Vec<u8> = vec![0x73u8, 0x74, 0x72, 0x75, 0x63, 0x74, 0x73, 0x3a];
    assert(out@ =~= structs_tag());
    extend_bytes(&mut out, u32_le_bytes(keys.len() as u32).as_slice());
    append_in_order(&mut out, &records, &order);
    assert(out@ =~= structs_section(ss));
    out
}

/// The bytes the ABI hash of a module is taken of: the non-private functions and then the
/// structs, each part ordered by name.
pub fn module_abi_preimage(module: &ModuleAbi) -> (r: Vec<u8>)
    ensures
        r@ == spec_module_abi_preimage(*module),
{
    let mut out = functions_section_bytes(&module.functions);
    let tail = structs_section_bytes(&module.structs);
    extend_bytes(&mut out, tail.as_slice());
    out
}

/// The ABI hash of a module: BLAKE3 of its ABI preimage. Private functions do not count.
pub fn compute_module_abi_hash(module: &ModuleAbi) -> (r: [u8; 32])
    ensures
        r@ == spec_module_abi_hash(*module),
{
    let preimage = module_abi_preimage(module);
    blake3_hash(preimage.as_slice())
}

/// Whether a new ABI hash keeps the old interface: the hashes must be equal.
pub fn abi_is_compatible(old_hash: &[u8; 32], new_hash: &[u8; 32]) -> (r: bool)
    ensures
        r == (old_hash@ == new_hash@),
{
    crate::text::bytes_eq(old_hash.as_slice(), new_hash.as_slice())
}

/// The bytes `package_abi:`.
pub open spec fn package_tag() -> Seq<u8> {
    seq![0x70u8, 0x61, 0x63, 0x6b, 0x61, 0x67, 0x65, 0x5f, 0x61, 0x62, 0x69, 0x3a]
}

/// A module's part of the package ABI: its name, then its ABI hash.
pub open spec fn package_entry(m: ModuleAbi) -> Seq<u8> {
    text_bytes(m.name) + spec_module_abi_hash(m)
}

/// The bytes the package ABI hash is taken of: the tag, the module count, and each module's
/// name and ABI hash, ordered by name.
pub open spec fn spec_package_abi_preimage(ms: Seq<ModuleAbi>) -> Seq<u8> {
    package_tag() + u32_le(ms.len() as u32) + concat_in_order(
        ms.map_values(|m: ModuleAbi| package_entry(m)),
        stable_order(ms.map_values(|m: ModuleAbi| text_bytes(m.name)), ms.len()),
    )
}

/// The package ABI hash: 32 zero bytes for no modules, else the hash of the preimage.
pub open spec fn spec_package_abi_hash(ms: Seq<ModuleAbi>) -> Seq<u8> {
    if ms.len() == 0 {
        Seq::new(32, |i: int| 0u8)
    } else {
        blake3_digest(spec_package_abi_preimage(ms))
    }
}

/// The combined ABI hash of the modules of a package.
pub fn compute_package_abi_hash(modules: &[ModuleAbi]) -> (r: [u8; 32])
    ensures
        r@ == spec_package_abi_hash(modules@),
{
    if modules.len() == 0 {
        let zero = [0u8; 32];
        assert(zero@ =~= Seq::new(32, |i: int| 0u8));
        return zero;
    }
    let ghost ms = modules@;
    let mut keys: Vec<Vec<u8>> = Vec::new();
    let mut entries: Vec<Vec<u8>> = Vec::new();
    let mut j: usize = 0;
    while j < modules.len()
        invariant
            j <= ms.len(),
            ms == modules@,
            byte_views(keys@) == ms.take(j as int).map_values(|m: ModuleAbi| text_bytes(m.name)),
            byte_views(entries@) == ms.take(j as int).map_values(|m: ModuleAbi| package_entry(m)),
        decreases ms.len() - j,
    {
        let m = &modules[j];
        let ghost kb = byte_views(keys@);
        let ghost eb = byte_views(entries@);
        let k = string_bytes(&m.name);
        let mut entry = string_bytes(&m.name);
        let hash = compute_module_abi_hash(m);
        extend_bytes(&mut entry, hash.as_slice());
        keys.push(k);
        entries.push(entry);
        assert(byte_views(keys@) =~= kb.push(k@));
        assert(byte_views(entries@) =~= eb.push(entry@));
        assert(ms.take(j as int + 1) =~= ms.take(j as int).push(*m));
        assert(ms.take(j as int).push(*m).map_values(|m: ModuleAbi| text_bytes(m.name))
            =~= ms.take(j as int).map_values(|m: ModuleAbi| text_bytes(m.name)).push(
            text_bytes(m.name),
        ));
        assert(ms.take(j as int).push(*m).map_values(|m: ModuleAbi| package_entry(m))
            =~= ms.take(j as int).map_values(|m: ModuleAbi| package_entry(m)).push(
            package_entry(*m),
        ));
        j += 1;
    }
    assert(ms.take(ms.len() as int) =~= ms);
    assert(byte_views(keys@).len() == keys@.len());
    assert(byte_views(entries@).len() == entries@.len());
    let order = stable_sort_indices(&keys);
    let mut preimage: Vec<u8> = vec![
        0x70u8, 0x61, 0x63, 0x6b, 0x61, 0x67, 0x65, 0x5f, 0x61, 0x62, 0x69, 0x3a,
    ];
    assert(preimage@ =~= package_tag());
    extend_bytes(&mut preimage, u32_le_bytes(keys.len() as u32).as_slice());
    append_in_order(&mut preimage, &entries, &order);
    assert(preimage@ =~= spec_package_abi_preimage(ms));
    blake3_hash(preimage.as_slice())
}

// ── Laws ────────────────────────────────────────────────────────────────

/// Adding a private function anywhere leaves the non-private functions as they were.
pub proof fn lemma_private_insert(fs: Seq<FunctionAbi>, i: int, f: FunctionAbi)
    requires
        0 <= i <= fs.len(),
        !is_public(f),
    ensures
        public_functions(fs.insert(i, f)) == public_functions(fs),
    decreases fs.len(),
{
    let g = fs.insert(i, f);
    if i == fs.len() {
        assert(g.drop_last() =~= fs);
    } else {
        assert(g.drop_last() =~= fs.drop_last().insert(i, f));
        assert(g.last() == fs.last());
        lemma_private_insert(fs.drop_last(), i, f);
    }
}

/// Two modules with the same non-private functions and the same structs have the same ABI
/// hash: private functions do not count.
pub proof fn law_abi_hash_ignores_private_functions(m1: ModuleAbi, m2: ModuleAbi)
    requires
        public_functions(m1.functions@) == public_functions(m2.functions@),
        m1.structs@ == m2.structs@,
    ensures
        spec_module_abi_hash(m1) == spec_module_abi_hash(m2),
{
}

/// Adding a private function to a module leaves its ABI hash unchanged.
pub proof fn law_adding_private_function_keeps_abi_hash(
    name: String,
    functions: Seq<FunctionAbi>,
    structs: Seq<StructAbi>,
    i: int,
    added: FunctionAbi,
    before: ModuleAbi,
    after: ModuleAbi,
)
    requires
        0 <= i <= functions.len(),
        !is_public(added),
        before.name == name,
        before.functions@ == functions,
        before.structs@ == structs,
        after.name == name,
        after.functions@ == functions.insert(i, added),
        after.structs@ == structs,
    ensures
        spec_module_abi_hash(after) == spec_module_abi_hash(before),
{
    lemma_private_insert(functions, i, added);
}


// ── Order of definitions ────────────────────────────────────────────────

/// A key and a record.
pub type KeyedRecord = (Seq<u8>, Seq<u8>);

/// Keys and records paired up, by position.
pub open spec fn keyed_records(keys: Seq<Seq<u8>>, records: Seq<Seq<u8>>) -> Seq<KeyedRecord> {
    Seq::new(keys.len(), |i: int| (keys[i], records[i]))
}

/// No key occurs twice.
pub open spec fn distinct_keys(keys: Seq<Seq<u8>>) -> bool {
    forall|i: int, j: int| 0 <= i < j < keys.len() ==> #[trigger] keys[i] != #[trigger] keys[j]
}

/// The keys strictly increase along the sequence.
pub open spec fn strictly_sorted(ps: Seq<KeyedRecord>) -> bool {
    forall|j: int, k: int| #![trigger ps[j], ps[k]] 0 <= j < k < ps.len() ==> bytes_lt(ps[j].0, ps[k].0)
}

/// The indices ordered so that no key is less than one before it.
pub open spec fn keys_nondecreasing(o: Seq<usize>, keys: Seq<Seq<u8>>) -> bool {
    forall|j: int, k: int| #![trigger o[j], o[k]] 0 <= j < k < o.len() ==> !bytes_lt(
        keys[o[k] as int],
        keys[o[j] as int],
    )
}

/// The records one after the other.
pub open spec fn flatten(rs: Seq<Seq<u8>>) -> Seq<u8>
    decreases rs.len(),
{
    if rs.len() == 0 {
        Seq::empty()
    } else {
        flatten(rs.drop_last()) + rs.last()
    }
}

proof fn lemma_sorted_unique(s: Seq<KeyedRecord>, t: Seq<KeyedRecord>)
    requires
        strictly_sorted(s),
        strictly_sorted(t),
        forall|x: KeyedRecord| s.contains(x) <==> t.contains(x),
    ensures
        s == t,
    decreases s.len() + t.len(),
{
    if s.len() == 0 {
        if t.len() > 0 {
            assert(t.contains(t[0]));
        }
        assert(s =~= t);
    } else if t.len() == 0 {
        assert(s.contains(s[0]));
    } else {
        assert(s.contains(s[0]));
        assert(t.contains(t[0]));
        let a = choose|i: int| 0 <= i < t.len() && t[i] == s[0];
        let b = choose|i: int| 0 <= i < s.len() && s[i] == t[0];
        if s[0] != t[0] {
            assert(a > 0 && b > 0);
            assert(bytes_lt(t[0].0, t[a].0));
            assert(bytes_lt(s[0].0, s[b].0));
            lemma_bytes_lt_asymmetric(s[0].0, t[0].0);
        }
        let s1 = s.drop_first();
        let t1 = t.drop_first();
        assert forall|x: KeyedRecord| s1.contains(x) implies t1.contains(x) by {
            let i = choose|i: int| 0 <= i < s1.len() && s1[i] == x;
            assert(s[i + 1] == x);
            assert(s.contains(x));
            let j = choose|j: int| 0 <= j < t.len() && t[j] == x;
            if j == 0 {
                assert(bytes_lt(s[0].0, s[i + 1].0));
                lemma_bytes_lt_irreflexive(x.0);
            }
            assert(t1[j - 1] == x);
        }
        assert forall|x: KeyedRecord| t1.contains(x) implies s1.contains(x) by {
            let i = choose|i: int| 0 <= i < t1.len() && t1[i] == x;
            assert(t[i + 1] == x);
            assert(t.contains(x));
            let j = choose|j: int| 0 <= j < s.len() && s[j] == x;
            if j == 0 {
                assert(bytes_lt(t[0].0, t[i + 1].0));
                lemma_bytes_lt_irreflexive(x.0);
            }
            assert(s1[j - 1] == x);
        }
        assert forall|j: int, k: int| #![trigger s1[j], s1[k]] 0 <= j < k < s1.len() implies bytes_lt(
            s1[j].0,
            s1[k].0,
        ) by {
            assert(s1[j] == s[j + 1] && s1[k] == s[k + 1]);
        }
        assert forall|j: int, k: int| #![trigger t1[j], t1[k]] 0 <= j < k < t1.len() implies bytes_lt(
            t1[j].0,
            t1[k].0,
        ) by {
            assert(t1[j] == t[j + 1] && t1[k] == t[k + 1]);
        }
        lemma_sorted_unique(s1, t1);
        assert(s =~= seq![s[0]] + s1);
        assert(t =~= seq![t[0]] + t1);
    }
}

proof fn lemma_insert_by_key_props(o: Seq<usize>, keys: Seq<Seq<u8>>, i: usize)
    requires
        keys_nondecreasing(o, keys),
    ensures
        insert_by_key(o, keys, i).len() == o.len() + 1,
        forall|x: usize| #[trigger] insert_by_key(o, keys, i).contains(x) <==> (o.contains(x) || x == i),
        keys_nondecreasing(insert_by_key(o, keys, i), keys),
        o.no_duplicates() && !o.contains(i) ==> insert_by_key(o, keys, i).no_duplicates(),
    decreases o.len(),
{
    let r = insert_by_key(o, keys, i);
    if o.len() == 0 {
        assert forall|x: usize| r.contains(x) <==> (o.contains(x) || x == i) by {
            if x == i {
                assert(r[0] == i);
            }
        }
    } else if bytes_lt(keys[i as int], keys[o[0] as int]) {
        assert(r =~= seq![i] + o);
        assert forall|x: usize| r.contains(x) <==> (o.contains(x) || x == i) by {
            if o.contains(x) {
                let j = choose|j: int| 0 <= j < o.len() && o[j] == x;
                assert(r[j + 1] == x);
            }
            if r.contains(x) {
                let j = choose|j: int| 0 <= j < r.len() && r[j] == x;
                if j > 0 {
                    assert(o[j - 1] == x);
                }
            }
            if x == i {
                assert(r[0] == i);
            }
        }
        assert forall|j: int, k: int| #![trigger r[j], r[k]] 0 <= j < k < r.len() implies !bytes_lt(
            keys[r[k] as int],
            keys[r[j] as int],
        ) by {
            if j == 0 {
                assert(r[k] == o[k - 1]);
                if k - 1 > 0 {
                    assert(!bytes_lt(keys[o[k - 1] as int], keys[o[0] as int]));
                }
                if bytes_lt(keys[r[k] as int], keys[i as int]) {
                    lemma_bytes_lt_transitive(keys[r[k] as int], keys[i as int], keys[o[0] as int]);
                    if k - 1 == 0 {
                        lemma_bytes_lt_irreflexive(keys[o[0] as int]);
                    }
                }
            } else {
                assert(r[j] == o[j - 1] && r[k] == o[k - 1]);
            }
        }
        if o.no_duplicates() && !o.contains(i) {
            assert forall|j: int, k: int| 0 <= j < r.len() && 0 <= k < r.len() && j != k implies r[j]
                != r[k] by {
                if j == 0 {
                    assert(o[k - 1] == r[k]);
                } else if k == 0 {
                    assert(o[j - 1] == r[j]);
                } else {
                    assert(o[j - 1] == r[j] && o[k - 1] == r[k]);
                }
            }
        }
    } else {
        let rest = o.drop_first();
        assert forall|j: int, k: int| #![trigger rest[j], rest[k]] 0 <= j < k < rest.len() implies !bytes_lt(
            keys[rest[k] as int],
            keys[rest[j] as int],
        ) by {
            assert(rest[j] == o[j + 1] && rest[k] == o[k + 1]);
        }
        lemma_insert_by_key_props(rest, keys, i);
        let ri = insert_by_key(rest, keys, i);
        assert(r =~= seq![o[0]] + ri);
        assert forall|x: usize| r.contains(x) <==> (o.contains(x) || x == i) by {
            if o.contains(x) {
                let j = choose|j: int| 0 <= j < o.len() && o[j] == x;
                if j > 0 {
                    assert(rest[j - 1] == x);
                    assert(ri.contains(x));
                    let q = choose|q: int| 0 <= q < ri.len() && ri[q] == x;
                    assert(r[q + 1] == x);
                } else {
                    assert(r[0] == x);
                }
            }
            if x == i {
                assert(ri.contains(x));
                let q = choose|q: int| 0 <= q < ri.len() && ri[q] == x;
                assert(r[q + 1] == x);
            }
            if r.contains(x) {
                let j = choose|j: int| 0 <= j < r.len() && r[j] == x;
                if j > 0 {
                    assert(ri[j - 1] == x);
                    assert(ri.contains(x));
                    if rest.contains(x) {
                        let q = choose|q: int| 0 <= q < rest.len() && rest[q] == x;
                        assert(o[q + 1] == x);
                    }
                } else {
                    assert(o[0] == x);
                }
            }
        }
        assert forall|j: int, k: int| #![trigger r[j], r[k]] 0 <= j < k < r.len() implies !bytes_lt(
            keys[r[k] as int],
            keys[r[j] as int],
        ) by {
            if j == 0 {
                assert(r[k] == ri[k - 1]);
                assert(ri.contains(r[k]));
                if r[k] == i {
                } else {
                    assert(rest.contains(r[k]));
                    let q = choose|q: int| 0 <= q < rest.len() && rest[q] == r[k];
                    assert(o[q + 1] == r[k]);
                    assert(o[0] == r[0]);
                }
            } else {
                assert(r[j] == ri[j - 1] && r[k] == ri[k - 1]);
            }
        }
        if o.no_duplicates() && !o.contains(i) {
            assert(rest.no_duplicates()) by {
                assert forall|j: int, k: int| 0 <= j < rest.len() && 0 <= k < rest.len() && j != k implies rest[j]
                    != rest[k] by {
                    assert(rest[j] == o[j + 1] && rest[k] == o[k + 1]);
                }
            }
            assert(!rest.contains(i)) by {
                if rest.contains(i) {
                    let q = choose|q: int| 0 <= q < rest.len() && rest[q] == i;
                    assert(o[q + 1] == i);
                }
            }
            assert(!ri.contains(o[0])) by {
                if ri.contains(o[0]) {
                    if o[0] != i {
                        let q = choose|q: int| 0 <= q < rest.len() && rest[q] == o[0];
                        assert(o[q + 1] == o[0]);
                    }
                }
            }
            assert forall|j: int, k: int| 0 <= j < r.len() && 0 <= k < r.len() && j != k implies r[j]
                != r[k] by {
                if j == 0 {
                    assert(ri[k - 1] == r[k]);
                    assert(ri.contains(r[k]));
                } else if k == 0 {
                    assert(ri[j - 1] == r[j]);
                    assert(ri.contains(r[j]));
                } else {
                    assert(ri[j - 1] == r[j] && ri[k - 1] == r[k]);
                }
            }
        }
    }
}

proof fn lemma_stable_order_props(keys: Seq<Seq<u8>>, n: nat)
    requires
        n <= usize::MAX,
    ensures
        stable_order(keys, n).len() == n,
        forall|x: usize| #[trigger] stable_order(keys, n).contains(x) <==> x < n,
        keys_nondecreasing(stable_order(keys, n), keys),
        stable_order(keys, n).no_duplicates(),
    decreases n,
{
    if n > 0 {
        let prev = stable_order(keys, (n - 1) as nat);
        lemma_stable_order_props(keys, (n - 1) as nat);
        lemma_insert_by_key_props(prev, keys, (n - 1) as usize);
        assert(!prev.contains((n - 1) as usize));
    } else {
        let o = stable_order(keys, n);
        assert(o =~= Seq::<usize>::empty());
        assert forall|x: usize| #[trigger] o.contains(x) <==> x < n by {
        }
    }
}

proof fn lemma_concat_in_order_flatten(records: Seq<Seq<u8>>, o: Seq<usize>)
    ensures
        concat_in_order(records, o) == flatten(o.map_values(|i: usize| records[i as int])),
    decreases o.len(),
{
    if o.len() > 0 {
        lemma_concat_in_order_flatten(records, o.drop_last());
        assert(o.drop_last().map_values(|i: usize| records[i as int]) =~= o.map_values(
            |i: usize| records[i as int],
        ).drop_last());
    }
}

/// The records ordered by the stable order of their keys, paired with the keys.
pub open spec fn ordered_records(keys: Seq<Seq<u8>>, records: Seq<Seq<u8>>) -> Seq<KeyedRecord> {
    stable_order(keys, keys.len()).map_values(|i: usize| (keys[i as int], records[i as int]))
}

proof fn lemma_ordered_records(keys: Seq<Seq<u8>>, records: Seq<Seq<u8>>)
    requires
        keys.len() == records.len(),
        keys.len() <= usize::MAX,
        distinct_keys(keys),
    ensures
        strictly_sorted(ordered_records(keys, records)),
        forall|x: KeyedRecord| #[trigger] ordered_records(keys, records).contains(x)
            <==> keyed_records(keys, records).contains(x),
        concat_in_order(records, stable_order(keys, keys.len())) == flatten(
            ordered_records(keys, records).map_values(|p: KeyedRecord| p.1),
        ),
{
    let n = keys.len();
    let o = stable_order(keys, n);
    let s = ordered_records(keys, records);
    let pairs = keyed_records(keys, records);
    lemma_stable_order_props(keys, n);
    assert(forall|k: int| 0 <= k < o.len() ==> #[trigger] o[k] < n) by {
        assert forall|k: int| 0 <= k < o.len() implies #[trigger] o[k] < n by {
            assert(o.contains(o[k]));
        }
    }
    assert forall|j: int, k: int| #![trigger s[j], s[k]] 0 <= j < k < s.len() implies bytes_lt(
        s[j].0,
        s[k].0,
    ) by {
        assert(!bytes_lt(keys[o[k] as int], keys[o[j] as int]));
        assert(o[j] != o[k]);
        let a = o[j] as int;
        let b = o[k] as int;
        if a < b {
            assert(keys[a] != keys[b]);
        } else {
            assert(keys[b] != keys[a]);
        }
        lemma_bytes_lt_total(keys[a], keys[b]);
    }
    assert forall|x: KeyedRecord| #[trigger] s.contains(x) <==> pairs.contains(x) by {
        if s.contains(x) {
            let j = choose|j: int| 0 <= j < s.len() && s[j] == x;
            assert(pairs[o[j] as int] == x);
        }
        if pairs.contains(x) {
            let i = choose|i: int| 0 <= i < pairs.len() && pairs[i] == x;
            assert(o.contains(i as usize));
            let j = choose|j: int| 0 <= j < o.len() && o[j] == i as usize;
            assert(s[j] == x);
        }
    }
    lemma_concat_in_order_flatten(records, o);
    assert(o.map_values(|i: usize| records[i as int]) =~= s.map_values(|p: KeyedRecord| p.1));
}

/// Records keyed by distinct keys come out the same whatever order they are given in: the
/// same (key, record) pairs, each key once, give the same bytes.
pub proof fn lemma_order_of_keyed_records(
    keys1: Seq<Seq<u8>>,
    records1: Seq<Seq<u8>>,
    keys2: Seq<Seq<u8>>,
    records2: Seq<Seq<u8>>,
)
    requires
        keys1.len() == records1.len(),
        keys2.len() == records2.len(),
        keys1.len() <= usize::MAX,
        keys2.len() <= usize::MAX,
        distinct_keys(keys1),
        distinct_keys(keys2),
        forall|x: KeyedRecord| #[trigger] keyed_records(keys1, records1).contains(x)
            <==> keyed_records(keys2, records2).contains(x),
    ensures
        keys1.len() == keys2.len(),
        concat_in_order(records1, stable_order(keys1, keys1.len())) == concat_in_order(
            records2,
            stable_order(keys2, keys2.len()),
        ),
{
    lemma_ordered_records(keys1, records1);
    lemma_ordered_records(keys2, records2);
    let s1 = ordered_records(keys1, records1);
    let s2 = ordered_records(keys2, records2);
    assert forall|x: KeyedRecord| s1.contains(x) <==> s2.contains(x) by {
        assert(s1.contains(x) <==> keyed_records(keys1, records1).contains(x));
        assert(s2.contains(x) <==> keyed_records(keys2, records2).contains(x));
    }
    lemma_sorted_unique(s1, s2);
    lemma_stable_order_props(keys1, keys1.len());
    lemma_stable_order_props(keys2, keys2.len());
}

/// No two functions share a name.
pub open spec fn function_names_distinct(fs: Seq<FunctionAbi>) -> bool {
    forall|i: int, j: int| 0 <= i < j < fs.len() ==> text_bytes(#[trigger] fs[i].name) != text_bytes(
        #[trigger] fs[j].name,
    )
}

/// No two structs share a name.
pub open spec fn struct_names_distinct(ss: Seq<StructAbi>) -> bool {
    forall|i: int, j: int| 0 <= i < j < ss.len() ==> text_bytes(#[trigger] ss[i].name) != text_bytes(
        #[trigger] ss[j].name,
    )
}

proof fn lemma_functions_section_order(fs1: Seq<FunctionAbi>, fs2: Seq<FunctionAbi>)
    requires
        fs1.len() <= usize::MAX,
        fs2.len() <= usize::MAX,
        function_names_distinct(fs1),
        function_names_distinct(fs2),
        forall|f: FunctionAbi| fs1.contains(f) <==> fs2.contains(f),
    ensures
        fs1.len() == fs2.len(),
        concat_in_order(
            fs1.map_values(|f: FunctionAbi| function_record(f)),
            stable_order(fs1.map_values(|f: FunctionAbi| text_bytes(f.name)), fs1.len()),
        ) == concat_in_order(
            fs2.map_values(|f: FunctionAbi| function_record(f)),
            stable_order(fs2.map_values(|f: FunctionAbi| text_bytes(f.name)), fs2.len()),
        ),
{
    let k1 = fs1.map_values(|f: FunctionAbi| text_bytes(f.name));
    let r1 = fs1.map_values(|f: FunctionAbi| function_record(f));
    let k2 = fs2.map_values(|f: FunctionAbi| text_bytes(f.name));
    let r2 = fs2.map_values(|f: FunctionAbi| function_record(f));
    assert forall|i: int, j: int| 0 <= i < j < k1.len() implies #[trigger] k1[i] != #[trigger] k1[j] by {
        assert(text_bytes(fs1[i].name) != text_bytes(fs1[j].name));
    }
    assert forall|i: int, j: int| 0 <= i < j < k2.len() implies #[trigger] k2[i] != #[trigger] k2[j] by {
        assert(text_bytes(fs2[i].name) != text_bytes(fs2[j].name));
    }
    assert forall|x: KeyedRecord| #[trigger] keyed_records(k1, r1).contains(x) implies keyed_records(
        k2,
        r2,
    ).contains(x) by {
        let i = choose|i: int| 0 <= i < keyed_records(k1, r1).len() && keyed_records(k1, r1)[i] == x;
        assert(fs1.contains(fs1[i]));
        let j = choose|j: int| 0 <= j < fs2.len() && fs2[j] == fs1[i];
        assert(keyed_records(k2, r2)[j] == x);
    }
    assert forall|x: KeyedRecord| #[trigger] keyed_records(k2, r2).contains(x) implies keyed_records(
        k1,
        r1,
    ).contains(x) by {
        let i = choose|i: int| 0 <= i < keyed_records(k2, r2).len() && keyed_records(k2, r2)[i] == x;
        assert(fs2.contains(fs2[i]));
        let j = choose|j: int| 0 <= j < fs1.len() && fs1[j] == fs2[i];
        assert(keyed_records(k1, r1)[j] == x);
    }
    lemma_order_of_keyed_records(k1, r1, k2, r2);
}

proof fn lemma_structs_section_order(ss1: Seq<StructAbi>, ss2: Seq<StructAbi>)
    requires
        ss1.len() <= usize::MAX,
        ss2.len() <= usize::MAX,
        struct_names_distinct(ss1),
        struct_names_distinct(ss2),
        forall|s: StructAbi| ss1.contains(s) <==> ss2.contains(s),
    ensures
        structs_section(ss1) == structs_section(ss2),
{
    let k1 = ss1.map_values(|s: StructAbi| text_bytes(s.name));
    let r1 = ss1.map_values(|s: StructAbi| struct_record(s));
    let k2 = ss2.map_values(|s: StructAbi| text_bytes(s.name));
    let r2 = ss2.map_values(|s: StructAbi| struct_record(s));
    assert forall|i: int, j: int| 0 <= i < j < k1.len() implies #[trigger] k1[i] != #[trigger] k1[j] by {
        assert(text_bytes(ss1[i].name) != text_bytes(ss1[j].name));
    }
    assert forall|i: int, j: int| 0 <= i < j < k2.len() implies #[trigger] k2[i] != #[trigger] k2[j] by {
        assert(text_bytes(ss2[i].name) != text_bytes(ss2[j].name));
    }
    assert forall|x: KeyedRecord| #[trigger] keyed_records(k1, r1).contains(x) implies keyed_records(
        k2,
        r2,
    ).contains(x) by {
        let i = choose|i: int| 0 <= i < keyed_records(k1, r1).len() && keyed_records(k1, r1)[i] == x;
        assert(ss1.contains(ss1[i]));
        let j = choose|j: int| 0 <= j < ss2.len() && ss2[j] == ss1[i];
        assert(keyed_records(k2, r2)[j] == x);
    }
    assert forall|x: KeyedRecord| #[trigger] keyed_records(k2, r2).contains(x) implies keyed_records(
        k1,
        r1,
    ).contains(x) by {
        let i = choose|i: int| 0 <= i < keyed_records(k2, r2).len() && keyed_records(k2, r2)[i] == x;
        assert(ss2.contains(ss2[i]));
        let j = choose|j: int| 0 <= j < ss1.len() && ss1[j] == ss2[i];
        assert(keyed_records(k1, r1)[j] == x);
    }
    lemma_order_of_keyed_records(k1, r1, k2, r2);
}

proof fn lemma_public_functions_len(fs: Seq<FunctionAbi>)
    ensures
        public_functions(fs).len() <= fs.len(),
    decreases fs.len(),
{
    if fs.len() > 0 {
        lemma_public_functions_len(fs.drop_last());
    }
}

/// Two modules with the same non-private functions and the same structs, each name once,
/// have the same ABI hash whatever order the functions and structs are defined in.
pub proof fn law_abi_hash_ignores_definition_order(m1: ModuleAbi, m2: ModuleAbi)
    requires
        function_names_distinct(public_functions(m1.functions@)),
        function_names_distinct(public_functions(m2.functions@)),
        forall|f: FunctionAbi| #[trigger] public_functions(m1.functions@).contains(f)
            <==> public_functions(m2.functions@).contains(f),
        struct_names_distinct(m1.structs@),
        struct_names_distinct(m2.structs@),
        forall|s: StructAbi| #[trigger] m1.structs@.contains(s) <==> m2.structs@.contains(s),
    ensures
        spec_module_abi_hash(m1) == spec_module_abi_hash(m2),
{
    assert(m1.functions@.len() == m1.functions.len());
    assert(m2.functions@.len() == m2.functions.len());
    assert(m1.structs@.len() == m1.structs.len());
    assert(m2.structs@.len() == m2.structs.len());
    lemma_public_functions_len(m1.functions@);
    lemma_public_functions_len(m2.functions@);
    let p1 = public_functions(m1.functions@);
    let p2 = public_functions(m2.functions@);
    lemma_functions_section_order(p1, p2);
    lemma_structs_section_order(m1.structs@, m2.structs@);
    assert(functions_section(m1.functions@) == functions_section(m2.functions@));
}

/// No two modules share a name.
pub open spec fn module_names_distinct(ms: Seq<ModuleAbi>) -> bool {
    forall|i: int, j: int| 0 <= i < j < ms.len() ==> text_bytes(#[trigger] ms[i].name) != text_bytes(
        #[trigger] ms[j].name,
    )
}

/// The package ABI hash does not depend on the order the modules are listed in: two lists
/// of the same modules, each name once, hash the same.
pub proof fn law_package_abi_hash_ignores_module_order(ms1: Seq<ModuleAbi>, ms2: Seq<ModuleAbi>)
    requires
        ms1.len() <= usize::MAX,
        ms2.len() <= usize::MAX,
        module_names_distinct(ms1),
        module_names_distinct(ms2),
        forall|m: ModuleAbi| #[trigger] ms1.contains(m) <==> ms2.contains(m),
    ensures
        spec_package_abi_hash(ms1) == spec_package_abi_hash(ms2),
{
    lemma_package_entries_order(ms1, ms2);
    assert(spec_package_abi_preimage(ms1) == spec_package_abi_preimage(ms2));
}

proof fn lemma_package_entries_order(ms1: Seq<ModuleAbi>, ms2: Seq<ModuleAbi>)
    requires
        ms1.len() <= usize::MAX,
        ms2.len() <= usize::MAX,
        module_names_distinct(ms1),
        module_names_distinct(ms2),
        forall|m: ModuleAbi| #[trigger] ms1.contains(m) <==> ms2.contains(m),
    ensures
        ms1.len() == ms2.len(),
        concat_in_order(
            ms1.map_values(|m: ModuleAbi| package_entry(m)),
            stable_order(ms1.map_values(|m: ModuleAbi| text_bytes(m.name)), ms1.len()),
        ) == concat_in_order(
            ms2.map_values(|m: ModuleAbi| package_entry(m)),
            stable_order(ms2.map_values(|m: ModuleAbi| text_bytes(m.name)), ms2.len()),
        ),
{
    let key = |m: ModuleAbi| text_bytes(m.name);
    let rec = |m: ModuleAbi| package_entry(m);
    assert forall|i: int, j: int| 0 <= i < j < ms1.len() implies #[trigger] key(ms1[i]) != #[trigger] key(
        ms1[j],
    ) by {
        assert(text_bytes(ms1[i].name) != text_bytes(ms1[j].name));
    }
    assert forall|i: int, j: int| 0 <= i < j < ms2.len() implies #[trigger] key(ms2[i]) != #[trigger] key(
        ms2[j],
    ) by {
        assert(text_bytes(ms2[i].name) != text_bytes(ms2[j].name));
    }
    lemma_order_by_key(ms1, ms2, key, rec);
    assert(ms1.map_values(|m: ModuleAbi| package_entry(m)) =~= ms1.map_values(rec));
    assert(ms2.map_values(|m: ModuleAbi| package_entry(m)) =~= ms2.map_values(rec));
    assert(ms1.map_values(|m: ModuleAbi| text_bytes(m.name)) =~= ms1.map_values(key));
    assert(ms2.map_values(|m: ModuleAbi| text_bytes(m.name)) =~= ms2.map_values(key));
}

/// Items with distinct keys come out the same whatever order they are given in.
proof fn lemma_order_by_key<A>(
    xs1: Seq<A>,
    xs2: Seq<A>,
    key: spec_fn(A) -> Seq<u8>,
    rec: spec_fn(A) -> Seq<u8>,
)
    requires
        xs1.len() <= usize::MAX,
        xs2.len() <= usize::MAX,
        forall|i: int, j: int| 0 <= i < j < xs1.len() ==> #[trigger] key(xs1[i]) != #[trigger] key(xs1[j]),
        forall|i: int, j: int| 0 <= i < j < xs2.len() ==> #[trigger] key(xs2[i]) != #[trigger] key(xs2[j]),
        forall|x: A| #[trigger] xs1.contains(x) <==> xs2.contains(x),
    ensures
        xs1.len() == xs2.len(),
        concat_in_order(xs1.map_values(rec), stable_order(xs1.map_values(key), xs1.len()))
            == concat_in_order(xs2.map_values(rec), stable_order(xs2.map_values(key), xs2.len())),
{
    let k1 = xs1.map_values(key);
    let r1 = xs1.map_values(rec);
    let k2 = xs2.map_values(key);
    let r2 = xs2.map_values(rec);
    assert forall|i: int, j: int| 0 <= i < j < k1.len() implies #[trigger] k1[i] != #[trigger] k1[j] by {
        assert(key(xs1[i]) != key(xs1[j]));
    }
    assert forall|i: int, j: int| 0 <= i < j < k2.len() implies #[trigger] k2[i] != #[trigger] k2[j] by {
        assert(key(xs2[i]) != key(xs2[j]));
    }
    assert forall|x: KeyedRecord| #[trigger] keyed_records(k1, r1).contains(x) implies keyed_records(
        k2,
        r2,
    ).contains(x) by {
        let i = choose|i: int| 0 <= i < keyed_records(k1, r1).len() && keyed_records(k1, r1)[i] == x;
        assert(xs1.contains(xs1[i]));
        let j = choose|j: int| 0 <= j < xs2.len() && xs2[j] == xs1[i];
        assert(keyed_records(k2, r2)[j] == x);
    }
    assert forall|x: KeyedRecord| #[trigger] keyed_records(k2, r2).contains(x) implies keyed_records(
        k1,
        r1,
    ).contains(x) by {
        let i = choose|i: int| 0 <= i < keyed_records(k2, r2).len() && keyed_records(k2, r2)[i] == x;
        assert(xs2.contains(xs2[i]));
        assert(xs1.contains(xs2[i]));
        let j = choose|j: int| 0 <= j < xs1.len() && xs1[j] == xs2[i];
        assert(keyed_records(k1, r1)[j] == x);
    }
    lemma_order_of_keyed_records(k1, r1, k2, r2);
}

} // verus!
