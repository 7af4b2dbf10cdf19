//! The interchange codec: packs a validated module into an artifact and
//! unpacks an artifact into a module.
//!
//! An artifact is the format tag, the fingerprint of the engine
//! configuration the module was built under, and the module's body as a
//! length-prefixed run of bytes. It is only unpacked by a loader whose own
//! configuration has the fingerprint it carries.

use vstd::prelude::*;
use vstd::slice::{slice_subrange, slice_to_vec};
use crate::config::{EngineConfig, fingerprint_of, is_fingerprint, lemma_fingerprint_injective};
use crate::module::{ExecutableModule, ModuleView};
use crate::wire::{
    append, dec_bytes, dec_exports, dec_imports, enc_bytes, enc_exports, enc_imports, fits32,
    fits_exports, fits_imports, lemma_bytes_roundtrip, lemma_bytes_sound, lemma_exports_roundtrip,
    lemma_exports_sound, lemma_imports_roundtrip, lemma_imports_sound, read_bytes, read_exports,
    read_imports, write_bytes, write_exports, write_imports,
};

verus! {

/// Why packing or unpacking failed.
#[derive(Debug, Clone, Copy, PartialEq, Eq, Structural)]
pub enum CodecError {
    /// The bytes are no artifact: cut short, padded or damaged.
    DecodingError,
    /// The configuration at hand is not the one the module was built under.
    ConfigMismatch,
    /// The module has a part too long for a 32-bit length.
    Oversized,
}

/// The four bytes every artifact starts with. A change to the layout of
/// artifacts changes the tag.
pub open spec fn format_tag() -> Seq<u8> {
    seq![0x77u8, 0x70u8, 0x72u8, 0x65u8]
}

/// The body of an artifact: imports, exports, code.
pub open spec fn enc_body(module: ModuleView) -> Seq<u8> {
    enc_imports(module.imports) + enc_exports(module.exports) + enc_bytes(module.code)
}

/// Whether every length in the module's artifact fits its 32-bit prefix.
pub open spec fn fits_module(module: ModuleView) -> bool {
    fits_imports(module.imports) && fits_exports(module.exports) && fits32(module.code.len())
        && fits32(enc_body(module).len())
}

/// The artifact of a module.
pub open spec fn encode_artifact(module: ModuleView) -> Seq<u8> {
    format_tag() + fingerprint_of(module.config) + enc_bytes(enc_body(module))
}

/// The module whose body `s` is, if `s` is a body from its first byte to its
/// last.
pub open spec fn dec_body(s: Seq<u8>, config: EngineConfig) -> Option<ModuleView> {
    match dec_imports(s) {
        Some((imports, first)) => match dec_exports(s.skip(first)) {
            Some((exports, second)) => match dec_bytes(s.skip(first + second)) {
                Some((code, third)) => if first + second + third == s.len() {
                    Some(ModuleView { config, imports, exports, code })
                } else {
                    None
                },
                None => None,
            },
            None => None,
        },
        None => None,
    }
}

/// What unpacking `s` gives a loader configured with `loader`.
///
/// Bytes without the tag or without a fingerprint are damaged. An intact
/// header that names another configuration is a mismatch, whatever follows
/// it. After that the rest must be exactly one body.
pub open spec fn decode_artifact(s: Seq<u8>, loader: EngineConfig) -> Result<
    ModuleView,
    CodecError,
> {
    if s.len() < 12 || s.subrange(0, 4) != format_tag() || !is_fingerprint(s.subrange(4, 12)) {
        Err(CodecError::DecodingError)
    } else if s.subrange(4, 12) != fingerprint_of(loader) {
        Err(CodecError::ConfigMismatch)
    } else {
        match dec_bytes(s.skip(12)) {
            Some((body, taken)) => if 12 + taken == s.len() {
                match dec_body(body, loader) {
                    Some(module) => Ok(module),
                    None => Err(CodecError::DecodingError),
                }
            } else {
                Err(CodecError::DecodingError)
            },
            None => Err(CodecError::DecodingError),
        }
    }
}

/// What packing a module under `config` gives.
pub open spec fn serialize_outcome(module: ModuleView, config: EngineConfig) -> Result<
    Seq<u8>,
    CodecError,
> {
    if module.config != config {
        Err(CodecError::ConfigMismatch)
    } else if !fits_module(module) {
        Err(CodecError::Oversized)
    } else {
        Ok(encode_artifact(module))
    }
}

/// The outcome of unpacking, with the module by its view.
pub open spec fn outcome_view(outcome: Result<ExecutableModule, CodecError>) -> Result<
    ModuleView,
    CodecError,
> {
    match outcome {
        Ok(module) => Ok(module@),
        Err(error) => Err(error),
    }
}

proof fn lemma_header(module: ModuleView)
    ensures
        encode_artifact(module).len() >= 12,
        encode_artifact(module).subrange(0, 4) == format_tag(),
        encode_artifact(module).subrange(4, 12) == fingerprint_of(module.config),
        encode_artifact(module).skip(12) == enc_bytes(enc_body(module)),
{
    let s = encode_artifact(module);
    assert(s.subrange(0, 4) =~= format_tag());
    assert(s.subrange(4, 12) =~= fingerprint_of(module.config));
    assert(s.skip(12) =~= enc_bytes(enc_body(module)));
}

/// Round trip: the artifact of a module that fits unpacks, under the
/// configuration the module was built under, to that very module: the same
/// imports, the same exports, the same code.
pub proof fn lemma_artifact_roundtrip(module: ModuleView)
    requires
        fits_module(module),
    ensures
        decode_artifact(encode_artifact(module), module.config) == Ok::<ModuleView, CodecError>(
            module,
        ),
{
    let s = encode_artifact(module);
    let body = enc_body(module);
    lemma_header(module);
    lemma_bytes_roundtrip(body, Seq::empty());
    assert(enc_bytes(body) + Seq::<u8>::empty() =~= enc_bytes(body));
    let a = enc_imports(module.imports);
    let b = enc_exports(module.exports);
    let c = enc_bytes(module.code);
    assert(body =~= a + (b + c));
    lemma_imports_roundtrip(module.imports, b + c);
    assert(body.skip(a.len() as int) =~= b + c);
    lemma_exports_roundtrip(module.exports, c);
    assert(body.skip((a.len() + b.len()) as int) =~= c + Seq::<u8>::empty());
    lemma_bytes_roundtrip(module.code, Seq::empty());
}

/// Mismatch: the artifact of a module built under one configuration is
/// refused with `ConfigMismatch` by a loader configured with any other.
pub proof fn lemma_foreign_config_refused(module: ModuleView, loader: EngineConfig)
    requires
        loader != module.config,
    ensures
        decode_artifact(encode_artifact(module), loader) == Err::<ModuleView, CodecError>(
            CodecError::ConfigMismatch,
        ),
{
    lemma_header(module);
    lemma_fingerprint_injective(module.config, loader);
}

/// Whatever unpacks is an artifact: a loader accepts `s` only if `s` is,
/// byte for byte, the artifact of the module it returns, built under the
/// loader's own configuration.
pub proof fn lemma_unpacked_is_artifact(s: Seq<u8>, loader: EngineConfig)
    requires
        decode_artifact(s, loader) is Ok,
    ensures
        decode_artifact(s, loader).unwrap().config == loader,
        fits_module(decode_artifact(s, loader).unwrap()),
        encode_artifact(decode_artifact(s, loader).unwrap()) == s,
{
    let module = decode_artifact(s, loader).unwrap();
    let tail = s.skip(12);
    lemma_bytes_sound(tail);
    let (body, taken) = dec_bytes(tail).unwrap();
    lemma_imports_sound(body);
    let (imports, first) = dec_imports(body).unwrap();
    lemma_exports_sound(body.skip(first));
    let (exports, second) = dec_exports(body.skip(first)).unwrap();
    lemma_bytes_sound(body.skip(first + second));
    let (code, third) = dec_bytes(body.skip(first + second)).unwrap();
    assert(body.skip(first).subrange(0, second) =~= body.subrange(first, first + second));
    assert(body.skip(first + second).subrange(0, third) =~= body.subrange(
        first + second,
        first + second + third,
    ));
    assert(body.subrange(0, first) + body.subrange(first, first + second) + body.subrange(
        first + second,
        first + second + third,
    ) =~= body);
    assert(enc_body(module) == body);
    assert(tail.subrange(0, taken) =~= tail);
    assert(s.subrange(0, 4) + s.subrange(4, 12) + tail =~= s);
}

/// Packs `module` for loaders configured with `config`.
///
/// Fails with `ConfigMismatch` when the module was built under another
/// configuration, and with `Oversized` when a part of it is too long for the
/// format. Otherwise the result is the module's artifact.
pub fn serialize(module: &ExecutableModule, config: &EngineConfig) -> (outcome: Result<
    Vec<u8>,
    CodecError,
>)
    ensures
        match outcome {
            Ok(bytes) => serialize_outcome(module@, *config) == Ok::<Seq<u8>, CodecError>(bytes@),
            Err(error) => serialize_outcome(module@, *config) == Err::<Seq<u8>, CodecError>(
                error,
            ),
        },
{
    if !module.config().compatible(config) {
        return Err(CodecError::ConfigMismatch);
    }
    let mut body: Vec<u8> = Vec::new();
    if !write_imports(&mut body, module.imports()) {
        return Err(CodecError::Oversized);
    }
    if !write_exports(&mut body, module.exports()) {
        return Err(CodecError::Oversized);
    }
    if !write_bytes(&mut body, module.code().as_slice()) {
        return Err(CodecError::Oversized);
    }
    assert(body@ =~= enc_body(module@));
    let mut bytes: Vec<u8> = Vec::new();
    bytes.push(0x77);
    bytes.push(0x70);
    bytes.push(0x72);
    bytes.push(0x65);
    let fingerprint = config.fingerprint();
    append(&mut bytes, fingerprint.as_slice());
    if !write_bytes(&mut bytes, body.as_slice()) {
        return Err(CodecError::Oversized);
    }
    assert(bytes@ =~= encode_artifact(module@));
    Ok(bytes)
}

/// Unpacks an artifact for a loader configured with `loader`.
///
/// Nothing is validated here: the bytes are taken apart, no more; the
/// engine sees the code only when the module is instantiated. The
/// result is exactly `decode_artifact`: a module only for bytes that are an
/// artifact built under `loader`, `ConfigMismatch` for an artifact built
/// under another configuration, `DecodingError` for everything else.
pub fn deserialize(bytes: &[u8], loader: &EngineConfig) -> (outcome: Result<
    ExecutableModule,
    CodecError,
>)
    ensures
        outcome_view(outcome) == decode_artifact(bytes@, *loader),
{
    if bytes.len() < 12 {
        return Err(CodecError::DecodingError);
    }
    if bytes[0] != 0x77 || bytes[1] != 0x70 || bytes[2] != 0x72 || bytes[3] != 0x65 {
        assert(bytes@.subrange(0, 4)[0] == bytes@[0] && bytes@.subrange(0, 4)[1] == bytes@[1]
            && bytes@.subrange(0, 4)[2] == bytes@[2] && bytes@.subrange(0, 4)[3] == bytes@[3]);
        return Err(CodecError::DecodingError);
    }
    assert(bytes@.subrange(0, 4) =~= format_tag());
    let embedded = match EngineConfig::from_fingerprint(slice_subrange(bytes, 4, 12)) {
        Some(config) => config,
        None => {
            return Err(CodecError::DecodingError);
        },
    };
    if !embedded.compatible(loader) {
        return Err(CodecError::ConfigMismatch);
    }
    let (body, end) = match read_bytes(bytes, 12) {
        Some(found) => found,
        None => {
            return Err(CodecError::DecodingError);
        },
    };
    if end != bytes.len() {
        return Err(CodecError::DecodingError);
    }
    assert(body@.skip(0) =~= body@);
    let (imports, first) = match read_imports(body, 0) {
        Some(found) => found,
        None => {
            return Err(CodecError::DecodingError);
        },
    };
    let (exports, second) = match read_exports(body, first) {
        Some(found) => found,
        None => {
            return Err(CodecError::DecodingError);
        },
    };
    let (code, third) = match read_bytes(body, second) {
        Some(found) => found,
        None => {
            return Err(CodecError::DecodingError);
        },
    };
    if third != body.len() {
        return Err(CodecError::DecodingError);
    }
    Ok(ExecutableModule::new(*loader, imports, exports, slice_to_vec(code)))
}

} // verus!
