//! The pieces an artifact is built from, each with its encoding, its
//! decoding and the proof that the two invert each other.
//!
//! Every variable-length piece is prefixed with its length as a 32-bit
//! little-endian number. Decoding works on a byte sequence and tells how many
//! bytes the piece took, so that pieces can follow each other.

use vstd::prelude::*;
use vstd::bytes::*;
use vstd::slice::slice_subrange;
use vstd::utf8::*;
use crate::module::{
    ExportDescriptor, ExportKind, ExportKindView, ExportView, ImportDescriptor, ImportView,
    Signature, SignatureView, ValueType, exports_view, imports_view,
};
use crate::text::text_from_utf8;

verus! {

/// Whether a length can be written as a 32-bit prefix.
pub open spec fn fits32(len: nat) -> bool {
    len <= u32::MAX
}

/// The prefix written for a length. It is the length itself whenever the
/// length fits.
pub open spec fn len32(len: nat) -> u32 {
    (len % 0x1_0000_0000) as u32
}

pub open spec fn enc_u32(value: u32) -> Seq<u8> {
    spec_u32_to_le_bytes(value)
}

pub open spec fn dec_u32(s: Seq<u8>) -> Option<(u32, int)> {
    if s.len() >= 4 {
        Some((spec_u32_from_le_bytes(s.subrange(0, 4)), 4))
    } else {
        None
    }
}

/// A run of bytes: its length, then the bytes.
pub open spec fn enc_bytes(bytes: Seq<u8>) -> Seq<u8> {
    enc_u32(len32(bytes.len())) + bytes
}

pub open spec fn dec_bytes(s: Seq<u8>) -> Option<(Seq<u8>, int)> {
    match dec_u32(s) {
        Some((len, _)) => if s.len() - 4 >= len {
            Some((s.subrange(4, 4 + len), 4 + len))
        } else {
            None
        },
        None => None,
    }
}

/// Text: its UTF-8 bytes as a run of bytes.
pub open spec fn enc_text(text: Seq<char>) -> Seq<u8> {
    enc_bytes(encode_utf8(text))
}

pub open spec fn dec_text(s: Seq<u8>) -> Option<(Seq<char>, int)> {
    match dec_bytes(s) {
        Some((bytes, taken)) => if valid_utf8(bytes) {
            Some((decode_utf8(bytes), taken))
        } else {
            None
        },
        None => None,
    }
}

pub open spec fn fits_text(text: Seq<char>) -> bool {
    fits32(encode_utf8(text).len())
}

/// The byte that stands for a value type, as in the binary module format.
pub open spec fn type_code(ty: ValueType) -> u8 {
    match ty {
        ValueType::I32 => 0x7F,
        ValueType::I64 => 0x7E,
        ValueType::F32 => 0x7D,
        ValueType::F64 => 0x7C,
        ValueType::V128 => 0x7B,
        ValueType::FuncRef => 0x70,
        ValueType::ExternRef => 0x6F,
    }
}

pub open spec fn code_type(code: u8) -> Option<ValueType> {
    if code == 0x7F {
        Some(ValueType::I32)
    } else if code == 0x7E {
        Some(ValueType::I64)
    } else if code == 0x7D {
        Some(ValueType::F32)
    } else if code == 0x7C {
        Some(ValueType::F64)
    } else if code == 0x7B {
        Some(ValueType::V128)
    } else if code == 0x70 {
        Some(ValueType::FuncRef)
    } else if code == 0x6F {
        Some(ValueType::ExternRef)
    } else {
        None
    }
}

pub open spec fn codes_of(types: Seq<ValueType>) -> Seq<u8> {
    Seq::new(types.len(), |i: int| type_code(types[i]))
}

pub open spec fn all_codes(codes: Seq<u8>) -> bool {
    forall|i: int| 0 <= i < codes.len() ==> code_type(#[trigger] codes[i]) is Some
}

pub open spec fn types_of(codes: Seq<u8>) -> Seq<ValueType> {
    Seq::new(codes.len(), |i: int| code_type(codes[i]).unwrap())
}

/// A list of value types: its codes as a run of bytes.
pub open spec fn enc_types(types: Seq<ValueType>) -> Seq<u8> {
    enc_bytes(codes_of(types))
}

pub open spec fn dec_types(s: Seq<u8>) -> Option<(Seq<ValueType>, int)> {
    match dec_bytes(s) {
        Some((codes, taken)) => if all_codes(codes) {
            Some((types_of(codes), taken))
        } else {
            None
        },
        None => None,
    }
}

/// A signature: the parameter types, then the result types.
pub open spec fn enc_signature(signature: SignatureView) -> Seq<u8> {
    enc_types(signature.params) + enc_types(signature.results)
}

pub open spec fn dec_signature(s: Seq<u8>) -> Option<(SignatureView, int)> {
    match dec_types(s) {
        Some((params, taken)) => match dec_types(s.skip(taken)) {
            Some((results, more)) => Some((SignatureView { params, results }, taken + more)),
            None => None,
        },
        None => None,
    }
}

pub open spec fn fits_signature(signature: SignatureView) -> bool {
    fits32(signature.params.len()) && fits32(signature.results.len())
}

/// A run of bytes that fits decodes to itself, whatever follows it.
pub proof fn lemma_bytes_roundtrip(bytes: Seq<u8>, rest: Seq<u8>)
    requires
        fits32(bytes.len()),
    ensures
        enc_bytes(bytes).len() == 4 + bytes.len(),
        dec_bytes(enc_bytes(bytes) + rest) == Some((bytes, 4 + bytes.len() as int)),
{
    lemma_auto_spec_u32_to_from_le_bytes();
    let s = enc_bytes(bytes) + rest;
    assert(s.subrange(0, 4) =~= enc_u32(len32(bytes.len())));
    assert(s.subrange(4, 4 + bytes.len() as int) =~= bytes);
}

/// What decodes as a run of bytes is the encoding of that run.
pub proof fn lemma_bytes_sound(s: Seq<u8>)
    requires
        dec_bytes(s) is Some,
    ensures
        fits32(dec_bytes(s).unwrap().0.len()),
        4 <= dec_bytes(s).unwrap().1 <= s.len(),
        dec_bytes(s).unwrap().1 == 4 + dec_bytes(s).unwrap().0.len(),
        enc_bytes(dec_bytes(s).unwrap().0) == s.subrange(0, dec_bytes(s).unwrap().1),
{
    lemma_auto_spec_u32_to_from_le_bytes();
    let (bytes, taken) = dec_bytes(s).unwrap();
    assert(enc_u32(len32(bytes.len())) == s.subrange(0, 4));
    assert(enc_bytes(bytes) =~= s.subrange(0, taken));
}

pub proof fn lemma_text_roundtrip(text: Seq<char>, rest: Seq<u8>)
    requires
        fits_text(text),
    ensures
        enc_text(text).len() == 4 + encode_utf8(text).len(),
        dec_text(enc_text(text) + rest) == Some((text, 4 + encode_utf8(text).len() as int)),
{
    lemma_bytes_roundtrip(encode_utf8(text), rest);
    encode_utf8_valid_utf8(text);
    encode_utf8_decode_utf8(text);
}

pub proof fn lemma_text_sound(s: Seq<u8>)
    requires
        dec_text(s) is Some,
    ensures
        fits_text(dec_text(s).unwrap().0),
        4 <= dec_text(s).unwrap().1 <= s.len(),
        enc_text(dec_text(s).unwrap().0) == s.subrange(0, dec_text(s).unwrap().1),
{
    lemma_bytes_sound(s);
    decode_utf8_encode_utf8(dec_bytes(s).unwrap().0);
}

pub proof fn lemma_codes_roundtrip(types: Seq<ValueType>)
    ensures
        all_codes(codes_of(types)),
        types_of(codes_of(types)) == types,
        codes_of(types).len() == types.len(),
{
    assert(types_of(codes_of(types)) =~= types);
}

pub proof fn lemma_codes_sound(codes: Seq<u8>)
    requires
        all_codes(codes),
    ensures
        codes_of(types_of(codes)) == codes,
        types_of(codes).len() == codes.len(),
{
    assert forall|i: int| 0 <= i < codes.len() implies codes_of(types_of(codes))[i]
        == codes[i] by {
        assert(code_type(codes[i]) is Some);
    }
    assert(codes_of(types_of(codes)) =~= codes);
}

pub proof fn lemma_types_roundtrip(types: Seq<ValueType>, rest: Seq<u8>)
    requires
        fits32(types.len()),
    ensures
        enc_types(types).len() == 4 + types.len(),
        dec_types(enc_types(types) + rest) == Some((types, 4 + types.len() as int)),
{
    lemma_codes_roundtrip(types);
    lemma_bytes_roundtrip(codes_of(types), rest);
}

pub proof fn lemma_types_sound(s: Seq<u8>)
    requires
        dec_types(s) is Some,
    ensures
        fits32(dec_types(s).unwrap().0.len()),
        4 <= dec_types(s).unwrap().1 <= s.len(),
        enc_types(dec_types(s).unwrap().0) == s.subrange(0, dec_types(s).unwrap().1),
{
    lemma_bytes_sound(s);
    lemma_codes_sound(dec_bytes(s).unwrap().0);
}

pub proof fn lemma_signature_roundtrip(signature: SignatureView, rest: Seq<u8>)
    requires
        fits_signature(signature),
    ensures
        enc_signature(signature).len() == 8 + signature.params.len() + signature.results.len(),
        dec_signature(enc_signature(signature) + rest) == Some(
            (signature, 8 + signature.params.len() as int + signature.results.len() as int),
        ),
{
    let first = enc_types(signature.params);
    let second = enc_types(signature.results);
    let s = enc_signature(signature) + rest;
    assert(s =~= first + (second + rest));
    lemma_types_roundtrip(signature.params, second + rest);
    assert(s.skip(first.len() as int) =~= second + rest);
    lemma_types_roundtrip(signature.results, rest);
}

pub proof fn lemma_signature_sound(s: Seq<u8>)
    requires
        dec_signature(s) is Some,
    ensures
        fits_signature(dec_signature(s).unwrap().0),
        8 <= dec_signature(s).unwrap().1 <= s.len(),
        enc_signature(dec_signature(s).unwrap().0) == s.subrange(0, dec_signature(s).unwrap().1),
{
    let (params, taken) = dec_types(s).unwrap();
    lemma_types_sound(s);
    let tail = s.skip(taken);
    let (results, more) = dec_types(tail).unwrap();
    lemma_types_sound(tail);
    assert(tail.subrange(0, more) =~= s.subrange(taken, taken + more));
    assert(s.subrange(0, taken) + s.subrange(taken, taken + more) =~= s.subrange(0, taken + more));
}

/// Appends `bytes` to `out`.
pub(crate) fn append(out: &mut Vec<u8>, bytes: &[u8])
    ensures
        final(out)@ == old(out)@ + bytes@,
{
    let mut index: usize = 0;
    while index < bytes.len()
        invariant
            index <= bytes.len(),
            out@ == old(out)@ + bytes@.take(index as int),
        decreases bytes.len() - index,
    {
        out.push(bytes[index]);
        assert(bytes@.take(index + 1) =~= bytes@.take(index as int).push(bytes@[index as int]));
        index += 1;
    }
    assert(bytes@.take(bytes.len() as int) =~= bytes@);
}

pub(crate) fn write_u32(out: &mut Vec<u8>, value: u32)
    ensures
        final(out)@ == old(out)@ + enc_u32(value),
{
    let bytes = u32_to_le_bytes(value);
    append(out, bytes.as_slice());
}

/// Appends a run of bytes, if its length fits; tells whether it did.
pub(crate) fn write_bytes(out: &mut Vec<u8>, bytes: &[u8]) -> (fits: bool)
    ensures
        fits == fits32(bytes@.len()),
        fits ==> final(out)@ == old(out)@ + enc_bytes(bytes@),
{
    if bytes.len() > u32::MAX as usize {
        return false;
    }
    write_u32(out, bytes.len() as u32);
    append(out, bytes);
    assert(out@ =~= old(out)@ + enc_bytes(bytes@));
    true
}

pub(crate) fn write_text(out: &mut Vec<u8>, text: &String) -> (fits: bool)
    ensures
        fits == fits_text(text@),
        fits ==> final(out)@ == old(out)@ + enc_text(text@),
{
    write_bytes(out, text.as_str().as_bytes())
}

pub(crate) fn type_to_code(ty: ValueType) -> (code: u8)
    ensures
        code == type_code(ty),
{
    match ty {
        ValueType::I32 => 0x7F,
        ValueType::I64 => 0x7E,
        ValueType::F32 => 0x7D,
        ValueType::F64 => 0x7C,
        ValueType::V128 => 0x7B,
        ValueType::FuncRef => 0x70,
        ValueType::ExternRef => 0x6F,
    }
}

pub(crate) fn code_to_type(code: u8) -> (ty: Option<ValueType>)
    ensures
        ty == code_type(code),
{
    if code == 0x7F {
        Some(ValueType::I32)
    } else if code == 0x7E {
        Some(ValueType::I64)
    } else if code == 0x7D {
        Some(ValueType::F32)
    } else if code == 0x7C {
        Some(ValueType::F64)
    } else if code == 0x7B {
        Some(ValueType::V128)
    } else if code == 0x70 {
        Some(ValueType::FuncRef)
    } else if code == 0x6F {
        Some(ValueType::ExternRef)
    } else {
        None
    }
}

pub(crate) fn write_types(out: &mut Vec<u8>, types: &Vec<ValueType>) -> (fits: bool)
    ensures
        fits == fits32(types@.len()),
        fits ==> final(out)@ == old(out)@ + enc_types(types@),
{
    if types.len() > u32::MAX as usize {
        return false;
    }
    write_u32(out, types.len() as u32);
    let ghost start = out@;
    let mut index: usize = 0;
    while index < types.len()
        invariant
            index <= types.len(),
            out@ == start + codes_of(types@).take(index as int),
        decreases types.len() - index,
    {
        out.push(type_to_code(types[index]));
        assert(codes_of(types@).take(index + 1) =~= codes_of(types@).take(index as int).push(
            type_code(types@[index as int]),
        ));
        index += 1;
    }
    assert(codes_of(types@).take(types.len() as int) =~= codes_of(types@));
    assert(out@ =~= old(out)@ + enc_types(types@));
    true
}

pub(crate) fn write_signature(out: &mut Vec<u8>, signature: &Signature) -> (fits: bool)
    ensures
        fits == fits_signature(signature@),
        fits ==> final(out)@ == old(out)@ + enc_signature(signature@),
{
    if !write_types(out, &signature.params) {
        return false;
    }
    if !write_types(out, &signature.results) {
        return false;
    }
    assert(out@ =~= old(out)@ + enc_signature(signature@));
    true
}

pub(crate) fn read_u32(bytes: &[u8], pos: usize) -> (found: Option<(u32, usize)>)
    requires
        pos <= bytes@.len(),
    ensures
        match dec_u32(bytes@.skip(pos as int)) {
            Some((value, taken)) => found is Some && found.unwrap().0 == value
                && found.unwrap().1 == pos + taken && pos + taken <= bytes@.len(),
            None => found is None,
        },
{
    if bytes.len() - pos < 4 {
        return None;
    }
    let value = u32_from_le_bytes(slice_subrange(bytes, pos, pos + 4));
    assert(bytes@.skip(pos as int).subrange(0, 4) =~= bytes@.subrange(pos as int, pos + 4));
    Some((value, pos + 4))
}

pub(crate) fn read_bytes(bytes: &[u8], pos: usize) -> (found: Option<(&[u8], usize)>)
    requires
        pos <= bytes@.len(),
    ensures
        match dec_bytes(bytes@.skip(pos as int)) {
            Some((run, taken)) => found is Some && found.unwrap().0@ == run && found.unwrap().1
                == pos + taken && pos + taken <= bytes@.len(),
            None => found is None,
        },
{
    let (len, start) = match read_u32(bytes, pos) {
        Some(found) => found,
        None => {
            return None;
        },
    };
    if bytes.len() - start < len as usize {
        return None;
    }
    let end = start + len as usize;
    let run = slice_subrange(bytes, start, end);
    assert(bytes@.skip(pos as int).subrange(4, 4 + len) =~= bytes@.subrange(
        start as int,
        end as int,
    ));
    Some((run, end))
}

pub(crate) fn read_text(bytes: &[u8], pos: usize) -> (found: Option<(String, usize)>)
    requires
        pos <= bytes@.len(),
    ensures
        match dec_text(bytes@.skip(pos as int)) {
            Some((text, taken)) => found is Some && found.unwrap().0@ == text && found.unwrap().1
                == pos + taken && pos + taken <= bytes@.len(),
            None => found is None,
        },
{
    let (run, next) = match read_bytes(bytes, pos) {
        Some(found) => found,
        None => {
            return None;
        },
    };
    match text_from_utf8(run) {
        Some(text) => Some((text, next)),
        None => None,
    }
}

pub(crate) fn read_types(bytes: &[u8], pos: usize) -> (found: Option<(Vec<ValueType>, usize)>)
    requires
        pos <= bytes@.len(),
    ensures
        match dec_types(bytes@.skip(pos as int)) {
            Some((types, taken)) => found is Some && found.unwrap().0@ == types
                && found.unwrap().1 == pos + taken && pos + taken <= bytes@.len(),
            None => found is None,
        },
{
    let (run, next) = match read_bytes(bytes, pos) {
        Some(found) => found,
        None => {
            return None;
        },
    };
    let mut types: Vec<ValueType> = Vec::new();
    let mut index: usize = 0;
    while index < run.len()
        invariant
            index <= run@.len(),
            types@.len() == index,
            forall|k: int| 0 <= k < index ==> code_type(#[trigger] run@[k]) == Some(types@[k]),
            dec_bytes(bytes@.skip(pos as int)) == Some((run@, next - pos)),
        decreases run.len() - index,
    {
        match code_to_type(run[index]) {
            Some(ty) => {
                types.push(ty);
            },
            None => {
                assert(code_type(run@[index as int]) is None);
                return None;
            },
        }
        index += 1;
    }
    assert(types@ =~= types_of(run@));
    Some((types, next))
}

pub(crate) fn read_signature(bytes: &[u8], pos: usize) -> (found: Option<(Signature, usize)>)
    requires
        pos <= bytes@.len(),
    ensures
        match dec_signature(bytes@.skip(pos as int)) {
            Some((signature, taken)) => found is Some && found.unwrap().0@ == signature
                && found.unwrap().1 == pos + taken && pos + taken <= bytes@.len(),
            None => found is None,
        },
{
    let (params, middle) = match read_types(bytes, pos) {
        Some(found) => found,
        None => {
            return None;
        },
    };
    assert(bytes@.skip(pos as int).skip(middle - pos) =~= bytes@.skip(middle as int));
    let (results, next) = match read_types(bytes, middle) {
        Some(found) => found,
        None => {
            return None;
        },
    };
    Some((Signature { params, results }, next))
}

/// An import: the namespace, the name, the signature.
pub open spec fn enc_import(import: ImportView) -> Seq<u8> {
    enc_text(import.namespace) + enc_text(import.name) + enc_signature(import.signature)
}

pub open spec fn dec_import(s: Seq<u8>) -> Option<(ImportView, int)> {
    match dec_text(s) {
        Some((namespace, first)) => match dec_text(s.skip(first)) {
            Some((name, second)) => match dec_signature(s.skip(first + second)) {
                Some((signature, third)) => Some(
                    (ImportView { namespace, name, signature }, first + second + third),
                ),
                None => None,
            },
            None => None,
        },
        None => None,
    }
}

pub open spec fn fits_import(import: ImportView) -> bool {
    fits_text(import.namespace) && fits_text(import.name) && fits_signature(import.signature)
}

/// An export: the name, one byte for the kind and, for a function, the
/// signature.
pub open spec fn enc_export(export: ExportView) -> Seq<u8> {
    enc_text(export.name) + enc_kind(export.kind)
}

pub open spec fn enc_kind(kind: ExportKindView) -> Seq<u8> {
    match kind {
        ExportKindView::Function(signature) => seq![0u8] + enc_signature(signature),
        ExportKindView::Table => seq![1u8],
        ExportKindView::Memory => seq![2u8],
        ExportKindView::Global => seq![3u8],
    }
}

pub open spec fn dec_kind(s: Seq<u8>) -> Option<(ExportKindView, int)> {
    if s.len() < 1 {
        None
    } else if s[0] == 0 {
        match dec_signature(s.skip(1)) {
            Some((signature, taken)) => Some((ExportKindView::Function(signature), 1 + taken)),
            None => None,
        }
    } else if s[0] == 1 {
        Some((ExportKindView::Table, 1))
    } else if s[0] == 2 {
        Some((ExportKindView::Memory, 1))
    } else if s[0] == 3 {
        Some((ExportKindView::Global, 1))
    } else {
        None
    }
}

pub open spec fn dec_export(s: Seq<u8>) -> Option<(ExportView, int)> {
    match dec_text(s) {
        Some((name, first)) => match dec_kind(s.skip(first)) {
            Some((kind, second)) => Some((ExportView { name, kind }, first + second)),
            None => None,
        },
        None => None,
    }
}

pub open spec fn fits_kind(kind: ExportKindView) -> bool {
    kind matches ExportKindView::Function(signature) ==> fits_signature(signature)
}

pub open spec fn fits_export(export: ExportView) -> bool {
    fits_text(export.name) && fits_kind(export.kind)
}

pub proof fn lemma_import_roundtrip(import: ImportView, rest: Seq<u8>)
    requires
        fits_import(import),
    ensures
        dec_import(enc_import(import) + rest) == Some((import, enc_import(import).len() as int)),
{
    let a = enc_text(import.namespace);
    let b = enc_text(import.name);
    let c = enc_signature(import.signature);
    let s = enc_import(import) + rest;
    assert(s =~= a + (b + c + rest));
    lemma_text_roundtrip(import.namespace, b + c + rest);
    assert(s.skip(a.len() as int) =~= b + (c + rest));
    lemma_text_roundtrip(import.name, c + rest);
    assert(s.skip((a.len() + b.len()) as int) =~= c + rest);
    lemma_signature_roundtrip(import.signature, rest);
}

pub proof fn lemma_import_sound(s: Seq<u8>)
    requires
        dec_import(s) is Some,
    ensures
        fits_import(dec_import(s).unwrap().0),
        0 <= dec_import(s).unwrap().1 <= s.len(),
        enc_import(dec_import(s).unwrap().0) == s.subrange(0, dec_import(s).unwrap().1),
{
    let (namespace, first) = dec_text(s).unwrap();
    lemma_text_sound(s);
    let (name, second) = dec_text(s.skip(first)).unwrap();
    lemma_text_sound(s.skip(first));
    let (signature, third) = dec_signature(s.skip(first + second)).unwrap();
    lemma_signature_sound(s.skip(first + second));
    assert(s.skip(first).subrange(0, second) =~= s.subrange(first, first + second));
    assert(s.skip(first + second).subrange(0, third) =~= s.subrange(
        first + second,
        first + second + third,
    ));
    assert(s.subrange(0, first) + s.subrange(first, first + second) + s.subrange(
        first + second,
        first + second + third,
    ) =~= s.subrange(0, first + second + third));
}

pub proof fn lemma_kind_roundtrip(kind: ExportKindView, rest: Seq<u8>)
    requires
        fits_kind(kind),
    ensures
        dec_kind(enc_kind(kind) + rest) == Some((kind, enc_kind(kind).len() as int)),
{
    let s = enc_kind(kind) + rest;
    match kind {
        ExportKindView::Function(signature) => {
            assert(s.skip(1) =~= enc_signature(signature) + rest);
            lemma_signature_roundtrip(signature, rest);
        },
        _ => {},
    }
}

pub proof fn lemma_kind_sound(s: Seq<u8>)
    requires
        dec_kind(s) is Some,
    ensures
        fits_kind(dec_kind(s).unwrap().0),
        0 <= dec_kind(s).unwrap().1 <= s.len(),
        enc_kind(dec_kind(s).unwrap().0) == s.subrange(0, dec_kind(s).unwrap().1),
{
    let (kind, taken) = dec_kind(s).unwrap();
    if s[0] == 0 {
        lemma_signature_sound(s.skip(1));
        let more = dec_signature(s.skip(1)).unwrap().1;
        assert(s.skip(1).subrange(0, more) =~= s.subrange(1, 1 + more));
        assert(seq![0u8] + s.subrange(1, 1 + more) =~= s.subrange(0, 1 + more));
    } else {
        assert(enc_kind(kind) =~= s.subrange(0, 1));
    }
}

pub proof fn lemma_export_roundtrip(export: ExportView, rest: Seq<u8>)
    requires
        fits_export(export),
    ensures
        dec_export(enc_export(export) + rest) == Some((export, enc_export(export).len() as int)),
{
    let a = enc_text(export.name);
    let b = enc_kind(export.kind);
    let s = enc_export(export) + rest;
    assert(s =~= a + (b + rest));
    lemma_text_roundtrip(export.name, b + rest);
    assert(s.skip(a.len() as int) =~= b + rest);
    lemma_kind_roundtrip(export.kind, rest);
}

pub proof fn lemma_export_sound(s: Seq<u8>)
    requires
        dec_export(s) is Some,
    ensures
        fits_export(dec_export(s).unwrap().0),
        0 <= dec_export(s).unwrap().1 <= s.len(),
        enc_export(dec_export(s).unwrap().0) == s.subrange(0, dec_export(s).unwrap().1),
{
    let (name, first) = dec_text(s).unwrap();
    lemma_text_sound(s);
    let (kind, second) = dec_kind(s.skip(first)).unwrap();
    lemma_kind_sound(s.skip(first));
    assert(s.skip(first).subrange(0, second) =~= s.subrange(first, first + second));
    assert(s.subrange(0, first) + s.subrange(first, first + second) =~= s.subrange(
        0,
        first + second,
    ));
}

/// The items of a list, one after the other.
pub open spec fn enc_list<V>(items: Seq<V>, enc: spec_fn(V) -> Seq<u8>) -> Seq<u8>
    decreases items.len(),
{
    if items.len() == 0 {
        Seq::empty()
    } else {
        enc_list(items.drop_last(), enc) + enc(items.last())
    }
}

/// Decodes `count` items that follow each other.
pub open spec fn dec_list<V>(
    s: Seq<u8>,
    count: nat,
    dec: spec_fn(Seq<u8>) -> Option<(V, int)>,
) -> Option<(Seq<V>, int)>
    decreases count,
{
    if count == 0 {
        Some((Seq::empty(), 0))
    } else {
        match dec(s) {
            Some((item, taken)) => match dec_list(s.skip(taken), (count - 1) as nat, dec) {
                Some((items, more)) => Some((seq![item] + items, taken + more)),
                None => None,
            },
            None => None,
        }
    }
}

/// Whether a decoder undoes an encoder on every item that fits, whatever
/// follows the item.
pub open spec fn inverts<V>(
    enc: spec_fn(V) -> Seq<u8>,
    dec: spec_fn(Seq<u8>) -> Option<(V, int)>,
    fits: spec_fn(V) -> bool,
) -> bool {
    forall|item: V, rest: Seq<u8>|
        fits(item) ==> #[trigger] dec(enc(item) + rest) == Some((item, enc(item).len() as int))
}

/// Whether everything a decoder accepts is the encoding of what it returns.
pub open spec fn accepts_only<V>(
    enc: spec_fn(V) -> Seq<u8>,
    dec: spec_fn(Seq<u8>) -> Option<(V, int)>,
    fits: spec_fn(V) -> bool,
) -> bool {
    forall|s: Seq<u8>| #[trigger]
        dec(s) is Some ==> fits(dec(s).unwrap().0) && 0 <= dec(s).unwrap().1 <= s.len() && enc(
            dec(s).unwrap().0,
        ) == s.subrange(0, dec(s).unwrap().1)
}

pub open spec fn all_fit<V>(items: Seq<V>, fits: spec_fn(V) -> bool) -> bool {
    forall|i: int| 0 <= i < items.len() ==> fits(#[trigger] items[i])
}

proof fn lemma_enc_list_front<V>(item: V, items: Seq<V>, enc: spec_fn(V) -> Seq<u8>)
    ensures
        enc_list(seq![item] + items, enc) == enc(item) + enc_list(items, enc),
    decreases items.len(),
{
    let whole = seq![item] + items;
    if items.len() == 0 {
        assert(whole.drop_last() =~= Seq::<V>::empty());
        assert(enc_list(whole.drop_last(), enc) =~= Seq::<u8>::empty());
        assert(enc_list(whole, enc) =~= enc(item) + enc_list(items, enc));
    } else {
        assert(whole.drop_last() =~= seq![item] + items.drop_last());
        assert(whole.last() == items.last());
        lemma_enc_list_front(item, items.drop_last(), enc);
        assert(enc_list(whole, enc) =~= enc(item) + enc_list(items, enc));
    }
}

/// A list whose items all fit decodes to itself, whatever follows it.
pub proof fn lemma_list_roundtrip<V>(
    items: Seq<V>,
    rest: Seq<u8>,
    enc: spec_fn(V) -> Seq<u8>,
    dec: spec_fn(Seq<u8>) -> Option<(V, int)>,
    fits: spec_fn(V) -> bool,
)
    requires
        inverts(enc, dec, fits),
        all_fit(items, fits),
    ensures
        dec_list(enc_list(items, enc) + rest, items.len(), dec) == Some(
            (items, enc_list(items, enc).len() as int),
        ),
    decreases items.len(),
{
    if items.len() == 0 {
        assert(items =~= Seq::<V>::empty());
    } else {
        let head = items.first();
        let tail = items.drop_first();
        assert(items =~= seq![head] + tail);
        lemma_enc_list_front(head, tail, enc);
        let s = enc_list(items, enc) + rest;
        assert(s =~= enc(head) + (enc_list(tail, enc) + rest));
        assert(fits(items[0]));
        assert(dec(enc(head) + (enc_list(tail, enc) + rest)) == Some(
            (head, enc(head).len() as int),
        ));
        assert(s.skip(enc(head).len() as int) =~= enc_list(tail, enc) + rest);
        assert forall|i: int| 0 <= i < tail.len() implies fits(#[trigger] tail[i]) by {
            assert(tail[i] == items[i + 1]);
        }
        lemma_list_roundtrip(tail, rest, enc, dec, fits);
    }
}

/// What decodes as a list is the encoding of that list.
pub proof fn lemma_list_sound<V>(
    s: Seq<u8>,
    count: nat,
    enc: spec_fn(V) -> Seq<u8>,
    dec: spec_fn(Seq<u8>) -> Option<(V, int)>,
    fits: spec_fn(V) -> bool,
)
    requires
        accepts_only(enc, dec, fits),
        dec_list(s, count, dec) is Some,
    ensures
        dec_list(s, count, dec).unwrap().0.len() == count,
        all_fit(dec_list(s, count, dec).unwrap().0, fits),
        0 <= dec_list(s, count, dec).unwrap().1 <= s.len(),
        enc_list(dec_list(s, count, dec).unwrap().0, enc) == s.subrange(
            0,
            dec_list(s, count, dec).unwrap().1,
        ),
    decreases count,
{
    if count == 0 {
        assert(s.subrange(0, 0) =~= Seq::<u8>::empty());
    } else {
        assert(dec(s) is Some);
        let (item, taken) = dec(s).unwrap();
        let tail = s.skip(taken);
        let (items, more) = dec_list(tail, (count - 1) as nat, dec).unwrap();
        lemma_list_sound(tail, (count - 1) as nat, enc, dec, fits);
        lemma_enc_list_front(item, items, enc);
        assert(tail.subrange(0, more) =~= s.subrange(taken, taken + more));
        assert(s.subrange(0, taken) + s.subrange(taken, taken + more) =~= s.subrange(
            0,
            taken + more,
        ));
        let whole = seq![item] + items;
        assert forall|i: int| 0 <= i < whole.len() implies fits(#[trigger] whole[i]) by {
            if i > 0 {
                assert(whole[i] == items[i - 1]);
            }
        }
    }
}

pub open spec fn import_enc() -> spec_fn(ImportView) -> Seq<u8> {
    |import: ImportView| enc_import(import)
}

pub open spec fn import_dec() -> spec_fn(Seq<u8>) -> Option<(ImportView, int)> {
    |s: Seq<u8>| dec_import(s)
}

pub open spec fn import_fits() -> spec_fn(ImportView) -> bool {
    |import: ImportView| fits_import(import)
}

pub open spec fn export_enc() -> spec_fn(ExportView) -> Seq<u8> {
    |export: ExportView| enc_export(export)
}

pub open spec fn export_dec() -> spec_fn(Seq<u8>) -> Option<(ExportView, int)> {
    |s: Seq<u8>| dec_export(s)
}

pub open spec fn export_fits() -> spec_fn(ExportView) -> bool {
    |export: ExportView| fits_export(export)
}

/// The imports of a module: how many there are, then each in declaration
/// order.
pub open spec fn enc_imports(imports: Seq<ImportView>) -> Seq<u8> {
    enc_u32(len32(imports.len())) + enc_list(imports, import_enc())
}

pub open spec fn dec_imports(s: Seq<u8>) -> Option<(Seq<ImportView>, int)> {
    match dec_u32(s) {
        Some((count, _)) => match dec_list(s.skip(4), count as nat, import_dec()) {
            Some((imports, taken)) => Some((imports, 4 + taken)),
            None => None,
        },
        None => None,
    }
}

pub open spec fn fits_imports(imports: Seq<ImportView>) -> bool {
    fits32(imports.len()) && all_fit(imports, import_fits())
}

/// The exports of a module: how many there are, then each in declaration
/// order.
pub open spec fn enc_exports(exports: Seq<ExportView>) -> Seq<u8> {
    enc_u32(len32(exports.len())) + enc_list(exports, export_enc())
}

pub open spec fn dec_exports(s: Seq<u8>) -> Option<(Seq<ExportView>, int)> {
    match dec_u32(s) {
        Some((count, _)) => match dec_list(s.skip(4), count as nat, export_dec()) {
            Some((exports, taken)) => Some((exports, 4 + taken)),
            None => None,
        },
        None => None,
    }
}

pub open spec fn fits_exports(exports: Seq<ExportView>) -> bool {
    fits32(exports.len()) && all_fit(exports, export_fits())
}

proof fn lemma_import_codec()
    ensures
        inverts(import_enc(), import_dec(), import_fits()),
        accepts_only(import_enc(), import_dec(), import_fits()),
{
    assert forall|item: ImportView,
        rest: Seq<u8>| import_fits()(item) implies #[trigger] import_dec()(
        import_enc()(item) + rest,
    ) == Some((item, import_enc()(item).len() as int)) by {
        lemma_import_roundtrip(item, rest);
    }
    assert forall|s: Seq<u8>| #[trigger] import_dec()(s) is Some implies import_fits()(
        import_dec()(s).unwrap().0,
    ) && 0 <= import_dec()(s).unwrap().1 <= s.len() && import_enc()(import_dec()(s).unwrap().0)
        == s.subrange(0, import_dec()(s).unwrap().1) by {
        lemma_import_sound(s);
    }
}

proof fn lemma_export_codec()
    ensures
        inverts(export_enc(), export_dec(), export_fits()),
        accepts_only(export_enc(), export_dec(), export_fits()),
{
    assert forall|item: ExportView,
        rest: Seq<u8>| export_fits()(item) implies #[trigger] export_dec()(
        export_enc()(item) + rest,
    ) == Some((item, export_enc()(item).len() as int)) by {
        lemma_export_roundtrip(item, rest);
    }
    assert forall|s: Seq<u8>| #[trigger] export_dec()(s) is Some implies export_fits()(
        export_dec()(s).unwrap().0,
    ) && 0 <= export_dec()(s).unwrap().1 <= s.len() && export_enc()(export_dec()(s).unwrap().0)
        == s.subrange(0, export_dec()(s).unwrap().1) by {
        lemma_export_sound(s);
    }
}

pub proof fn lemma_imports_roundtrip(imports: Seq<ImportView>, rest: Seq<u8>)
    requires
        fits_imports(imports),
    ensures
        dec_imports(enc_imports(imports) + rest) == Some(
            (imports, enc_imports(imports).len() as int),
        ),
{
    lemma_auto_spec_u32_to_from_le_bytes();
    lemma_import_codec();
    let s = enc_imports(imports) + rest;
    assert(s.subrange(0, 4) =~= enc_u32(len32(imports.len())));
    assert(s.skip(4) =~= enc_list(imports, import_enc()) + rest);
    lemma_list_roundtrip(imports, rest, import_enc(), import_dec(), import_fits());
}

pub proof fn lemma_imports_sound(s: Seq<u8>)
    requires
        dec_imports(s) is Some,
    ensures
        fits_imports(dec_imports(s).unwrap().0),
        4 <= dec_imports(s).unwrap().1 <= s.len(),
        enc_imports(dec_imports(s).unwrap().0) == s.subrange(0, dec_imports(s).unwrap().1),
{
    lemma_auto_spec_u32_to_from_le_bytes();
    lemma_import_codec();
    let count = dec_u32(s).unwrap().0;
    let tail = s.skip(4);
    lemma_list_sound(tail, count as nat, import_enc(), import_dec(), import_fits());
    let (imports, taken) = dec_list(tail, count as nat, import_dec()).unwrap();
    assert(enc_u32(len32(imports.len())) == s.subrange(0, 4));
    assert(tail.subrange(0, taken) =~= s.subrange(4, 4 + taken));
    assert(s.subrange(0, 4) + s.subrange(4, 4 + taken) =~= s.subrange(0, 4 + taken));
}

pub proof fn lemma_exports_roundtrip(exports: Seq<ExportView>, rest: Seq<u8>)
    requires
        fits_exports(exports),
    ensures
        dec_exports(enc_exports(exports) + rest) == Some(
            (exports, enc_exports(exports).len() as int),
        ),
{
    lemma_auto_spec_u32_to_from_le_bytes();
    lemma_export_codec();
    let s = enc_exports(exports) + rest;
    assert(s.subrange(0, 4) =~= enc_u32(len32(exports.len())));
    assert(s.skip(4) =~= enc_list(exports, export_enc()) + rest);
    lemma_list_roundtrip(exports, rest, export_enc(), export_dec(), export_fits());
}

pub proof fn lemma_exports_sound(s: Seq<u8>)
    requires
        dec_exports(s) is Some,
    ensures
        fits_exports(dec_exports(s).unwrap().0),
        4 <= dec_exports(s).unwrap().1 <= s.len(),
        enc_exports(dec_exports(s).unwrap().0) == s.subrange(0, dec_exports(s).unwrap().1),
{
    lemma_auto_spec_u32_to_from_le_bytes();
    lemma_export_codec();
    let count = dec_u32(s).unwrap().0;
    let tail = s.skip(4);
    lemma_list_sound(tail, count as nat, export_enc(), export_dec(), export_fits());
    let (exports, taken) = dec_list(tail, count as nat, export_dec()).unwrap();
    assert(enc_u32(len32(exports.len())) == s.subrange(0, 4));
    assert(tail.subrange(0, taken) =~= s.subrange(4, 4 + taken));
    assert(s.subrange(0, 4) + s.subrange(4, 4 + taken) =~= s.subrange(0, 4 + taken));
}

pub(crate) fn write_import(out: &mut Vec<u8>, import: &ImportDescriptor) -> (fits: bool)
    ensures
        fits == fits_import(import@),
        fits ==> final(out)@ == old(out)@ + enc_import(import@),
{
    if !write_text(out, &import.namespace) {
        return false;
    }
    if !write_text(out, &import.name) {
        return false;
    }
    if !write_signature(out, &import.signature) {
        return false;
    }
    assert(out@ =~= old(out)@ + enc_import(import@));
    true
}

pub(crate) fn write_export(out: &mut Vec<u8>, export: &ExportDescriptor) -> (fits: bool)
    ensures
        fits == fits_export(export@),
        fits ==> final(out)@ == old(out)@ + enc_export(export@),
{
    if !write_text(out, &export.name) {
        return false;
    }
    match &export.kind {
        ExportKind::Function(signature) => {
            out.push(0);
            if !write_signature(out, signature) {
                return false;
            }
        },
        ExportKind::Table => {
            out.push(1);
        },
        ExportKind::Memory => {
            out.push(2);
        },
        ExportKind::Global => {
            out.push(3);
        },
    }
    assert(out@ =~= old(out)@ + enc_export(export@));
    true
}

pub(crate) fn write_imports(out: &mut Vec<u8>, imports: &Vec<ImportDescriptor>) -> (fits: bool)
    ensures
        fits == fits_imports(imports_view(imports@)),
        fits ==> final(out)@ == old(out)@ + enc_imports(imports_view(imports@)),
{
    let ghost views = imports_view(imports@);
    if imports.len() > u32::MAX as usize {
        return false;
    }
    write_u32(out, imports.len() as u32);
    let ghost start = out@;
    let mut index: usize = 0;
    while index < imports.len()
        invariant
            index <= imports.len(),
            views == imports_view(imports@),
            out@ == start + enc_list(views.take(index as int), import_enc()),
            all_fit(views.take(index as int), import_fits()),
        decreases imports.len() - index,
    {
        let ghost before = out@;
        if !write_import(out, &imports[index]) {
            assert(!import_fits()(views[index as int]));
            return false;
        }
        proof {
            let next = views.take(index + 1);
            assert(next.drop_last() =~= views.take(index as int));
            assert(next.last() == imports@[index as int]@);
            assert(out@ =~= start + enc_list(next, import_enc()));
            assert forall|k: int| 0 <= k < next.len() implies import_fits()(#[trigger] next[k]) by {
                if k < index {
                    assert(next[k] == views.take(index as int)[k]);
                }
            }
        }
        index += 1;
    }
    assert(views.take(imports.len() as int) =~= views);
    assert(out@ =~= old(out)@ + enc_imports(views));
    true
}

pub(crate) fn write_exports(out: &mut Vec<u8>, exports: &Vec<ExportDescriptor>) -> (fits: bool)
    ensures
        fits == fits_exports(exports_view(exports@)),
        fits ==> final(out)@ == old(out)@ + enc_exports(exports_view(exports@)),
{
    let ghost views = exports_view(exports@);
    if exports.len() > u32::MAX as usize {
        return false;
    }
    write_u32(out, exports.len() as u32);
    let ghost start = out@;
    let mut index: usize = 0;
    while index < exports.len()
        invariant
            index <= exports.len(),
            views == exports_view(exports@),
            out@ == start + enc_list(views.take(index as int), export_enc()),
            all_fit(views.take(index as int), export_fits()),
        decreases exports.len() - index,
    {
        if !write_export(out, &exports[index]) {
            assert(!export_fits()(views[index as int]));
            return false;
        }
        proof {
            let next = views.take(index + 1);
            assert(next.drop_last() =~= views.take(index as int));
            assert(next.last() == exports@[index as int]@);
            assert(out@ =~= start + enc_list(next, export_enc()));
            assert forall|k: int| 0 <= k < next.len() implies export_fits()(#[trigger] next[k]) by {
                if k < index {
                    assert(next[k] == views.take(index as int)[k]);
                }
            }
        }
        index += 1;
    }
    assert(views.take(exports.len() as int) =~= views);
    assert(out@ =~= old(out)@ + enc_exports(views));
    true
}

pub(crate) fn read_import(bytes: &[u8], pos: usize) -> (found: Option<(ImportDescriptor, usize)>)
    requires
        pos <= bytes@.len(),
    ensures
        match dec_import(bytes@.skip(pos as int)) {
            Some((import, taken)) => found is Some && found.unwrap().0@ == import
                && found.unwrap().1 == pos + taken && pos + taken <= bytes@.len(),
            None => found is None,
        },
{
    let (namespace, first) = match read_text(bytes, pos) {
        Some(found) => found,
        None => {
            return None;
        },
    };
    assert(bytes@.skip(pos as int).skip(first - pos) =~= bytes@.skip(first as int));
    let (name, second) = match read_text(bytes, first) {
        Some(found) => found,
        None => {
            return None;
        },
    };
    assert(bytes@.skip(pos as int).skip(second - pos) =~= bytes@.skip(second as int));
    let (signature, next) = match read_signature(bytes, second) {
        Some(found) => found,
        None => {
            return None;
        },
    };
    Some((ImportDescriptor { namespace, name, signature }, next))
}

pub(crate) fn read_export(bytes: &[u8], pos: usize) -> (found: Option<(ExportDescriptor, usize)>)
    requires
        pos <= bytes@.len(),
    ensures
        match dec_export(bytes@.skip(pos as int)) {
            Some((export, taken)) => found is Some && found.unwrap().0@ == export
                && found.unwrap().1 == pos + taken && pos + taken <= bytes@.len(),
            None => found is None,
        },
{
    let (name, first) = match read_text(bytes, pos) {
        Some(found) => found,
        None => {
            return None;
        },
    };
    assert(bytes@.skip(pos as int).skip(first - pos) =~= bytes@.skip(first as int));
    if first >= bytes.len() {
        return None;
    }
    let code = bytes[first];
    assert(bytes@.skip(first as int)[0] == code);
    assert(bytes@.skip(first as int).skip(1) =~= bytes@.skip(first + 1));
    if code == 0 {
        match read_signature(bytes, first + 1) {
            Some((signature, next)) => Some(
                (ExportDescriptor { name, kind: ExportKind::Function(signature) }, next),
            ),
            None => None,
        }
    } else if code == 1 {
        Some((ExportDescriptor { name, kind: ExportKind::Table }, first + 1))
    } else if code == 2 {
        Some((ExportDescriptor { name, kind: ExportKind::Memory }, first + 1))
    } else if code == 3 {
        Some((ExportDescriptor { name, kind: ExportKind::Global }, first + 1))
    } else {
        None
    }
}

pub(crate) fn read_imports(bytes: &[u8], pos: usize) -> (found: Option<
    (Vec<ImportDescriptor>, usize),
>)
    requires
        pos <= bytes@.len(),
    ensures
        match dec_imports(bytes@.skip(pos as int)) {
            Some((imports, taken)) => found is Some && imports_view(found.unwrap().0@) == imports
                && found.unwrap().1 == pos + taken && pos + taken <= bytes@.len(),
            None => found is None,
        },
{
    let (count, start) = match read_u32(bytes, pos) {
        Some(found) => found,
        None => {
            return None;
        },
    };
    assert(bytes@.skip(pos as int).skip(4) =~= bytes@.skip(start as int));
    let ghost whole = dec_list(bytes@.skip(start as int), count as nat, import_dec());
    let mut imports: Vec<ImportDescriptor> = Vec::new();
    let mut cur: usize = start;
    let mut index: u32 = 0;
    proof {
        if whole is Some {
            assert(imports_view(imports@) + whole.unwrap().0 =~= whole.unwrap().0);
        }
    }
    while index < count
        invariant
            start <= cur <= bytes@.len(),
            index <= count,
            start == pos + 4,
            bytes@.skip(pos as int).skip(4) == bytes@.skip(start as int),
            dec_u32(bytes@.skip(pos as int)) == Some((count, 4int)),
            whole == dec_list(bytes@.skip(start as int), count as nat, import_dec()),
            match dec_list(bytes@.skip(cur as int), (count - index) as nat, import_dec()) {
                Some((more, taken)) => whole == Some(
                    (imports_view(imports@) + more, cur - start + taken),
                ),
                None => whole is None,
            },
        decreases count - index,
    {
        let ghost s = bytes@.skip(cur as int);
        let ghost seen = imports_view(imports@);
        match read_import(bytes, cur) {
            Some((import, next)) => {
                proof {
                    assert(s.skip(next - cur) =~= bytes@.skip(next as int));
                    let later = dec_list(
                        bytes@.skip(next as int),
                        (count - index - 1) as nat,
                        import_dec(),
                    );
                    assert(imports_view(imports@.push(import)) =~= seen.push(import@));
                    if later is Some {
                        let more = later.unwrap().0;
                        assert(seen + (seq![import@] + more) =~= seen.push(import@) + more);
                    }
                }
                imports.push(import);
                cur = next;
                index += 1;
            },
            None => {
                return None;
            },
        }
    }
    assert(imports_view(imports@) + Seq::<ImportView>::empty() =~= imports_view(imports@));
    Some((imports, cur))
}

pub(crate) fn read_exports(bytes: &[u8], pos: usize) -> (found: Option<
    (Vec<ExportDescriptor>, usize),
>)
    requires
        pos <= bytes@.len(),
    ensures
        match dec_exports(bytes@.skip(pos as int)) {
            Some((exports, taken)) => found is Some && exports_view(found.unwrap().0@) == exports
                && found.unwrap().1 == pos + taken && pos + taken <= bytes@.len(),
            None => found is None,
        },
{
    let (count, start) = match read_u32(bytes, pos) {
        Some(found) => found,
        None => {
            return None;
        },
    };
    assert(bytes@.skip(pos as int).skip(4) =~= bytes@.skip(start as int));
    let ghost whole = dec_list(bytes@.skip(start as int), count as nat, export_dec());
    let mut exports: Vec<ExportDescriptor> = Vec::new();
    let mut cur: usize = start;
    let mut index: u32 = 0;
    proof {
        if whole is Some {
            assert(exports_view(exports@) + whole.unwrap().0 =~= whole.unwrap().0);
        }
    }
    while index < count
        invariant
            start <= cur <= bytes@.len(),
            index <= count,
            start == pos + 4,
            bytes@.skip(pos as int).skip(4) == bytes@.skip(start as int),
            dec_u32(bytes@.skip(pos as int)) == Some((count, 4int)),
            whole == dec_list(bytes@.skip(start as int), count as nat, export_dec()),
            match dec_list(bytes@.skip(cur as int), (count - index) as nat, export_dec()) {
                Some((more, taken)) => whole == Some(
                    (exports_view(exports@) + more, cur - start + taken),
                ),
                None => whole is None,
            },
        decreases count - index,
    {
        let ghost s = bytes@.skip(cur as int);
        let ghost seen = exports_view(exports@);
        match read_export(bytes, cur) {
            Some((export, next)) => {
                proof {
                    assert(s.skip(next - cur) =~= bytes@.skip(next as int));
                    let later = dec_list(
                        bytes@.skip(next as int),
                        (count - index - 1) as nat,
                        export_dec(),
                    );
                    assert(exports_view(exports@.push(export)) =~= seen.push(export@));
                    if later is Some {
                        let more = later.unwrap().0;
                        assert(seen + (seq![export@] + more) =~= seen.push(export@) + more);
                    }
                }
                exports.push(export);
                cur = next;
                index += 1;
            },
            None => {
                return None;
            },
        }
    }
    assert(exports_view(exports@) + Seq::<ExportView>::empty() =~= exports_view(exports@));
    Some((exports, cur))
}

} // verus!
