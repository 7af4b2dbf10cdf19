//! The options an engine is built with, and their fingerprint.
//!
//! What a translated module means depends on these options, so an artifact
//! carries the fingerprint of the configuration it was built under and is
//! only loaded by a runtime whose own configuration has the same one.

use vstd::prelude::*;

verus! {

/// When the engine translates a function's body.
#[derive(Debug, Clone, Copy, PartialEq, Eq, Structural)]
pub enum TranslationMode {
    /// Everything is validated and translated when the module is created.
    Eager,
    /// Everything is validated up front; translation waits for the first call.
    LazyTranslation,
    /// Validation and translation both wait for the first call.
    Lazy,
}

/// The execution-affecting options of an engine. Fixed once a process starts.
#[derive(Debug, Clone, Copy, PartialEq, Eq, Structural)]
pub struct EngineConfig {
    /// Whether executed instructions are charged against a fuel budget.
    pub fuel_metering: bool,
    pub translation: TranslationMode,
    pub multi_value: bool,
    pub bulk_memory: bool,
    pub reference_types: bool,
    pub tail_call: bool,
    pub floats: bool,
}

/// The layout version of a fingerprint; it is the fingerprint's first byte.
pub const FINGERPRINT_VERSION: u8 = 1;

/// The number of bytes in a fingerprint.
pub const FINGERPRINT_LEN: usize = 8;

/// The byte that stands for a flag.
pub open spec fn flag_byte(flag: bool) -> u8 {
    if flag {
        1
    } else {
        0
    }
}

/// The byte that stands for a translation mode.
pub open spec fn mode_byte(mode: TranslationMode) -> u8 {
    match mode {
        TranslationMode::Eager => 0,
        TranslationMode::LazyTranslation => 1,
        TranslationMode::Lazy => 2,
    }
}

/// The fingerprint of a configuration: the layout version, then one byte for
/// each option, in the order of the fields.
pub open spec fn fingerprint_of(config: EngineConfig) -> Seq<u8> {
    seq![
        FINGERPRINT_VERSION,
        flag_byte(config.fuel_metering),
        mode_byte(config.translation),
        flag_byte(config.multi_value),
        flag_byte(config.bulk_memory),
        flag_byte(config.reference_types),
        flag_byte(config.tail_call),
        flag_byte(config.floats),
    ]
}

/// Whether some configuration has `bytes` as its fingerprint.
pub open spec fn is_fingerprint(bytes: Seq<u8>) -> bool {
    exists|config: EngineConfig| bytes == #[trigger] fingerprint_of(config)
}

/// Two configurations are the same exactly when their fingerprints are:
/// every option leaves its mark.
pub proof fn lemma_fingerprint_injective(a: EngineConfig, b: EngineConfig)
    ensures
        fingerprint_of(a).len() == FINGERPRINT_LEN,
        fingerprint_of(a) == fingerprint_of(b) <==> a == b,
{
    let fa = fingerprint_of(a);
    let fb = fingerprint_of(b);
    if fa == fb {
        assert(fa[1] == fb[1] && fa[2] == fb[2] && fa[3] == fb[3] && fa[4] == fb[4]);
        assert(fa[5] == fb[5] && fa[6] == fb[6] && fa[7] == fb[7]);
    }
}

fn flag_to_byte(flag: bool) -> (byte: u8)
    ensures
        byte == flag_byte(flag),
{
    if flag {
        1
    } else {
        0
    }
}

fn byte_to_flag(byte: u8) -> (flag: Option<bool>)
    ensures
        match flag {
            Some(value) => byte == flag_byte(value),
            None => forall|value: bool| byte != flag_byte(value),
        },
{
    if byte == 0 {
        Some(false)
    } else if byte == 1 {
        Some(true)
    } else {
        assert(flag_byte(true) == 1 && flag_byte(false) == 0);
        None
    }
}

fn mode_to_byte(mode: TranslationMode) -> (byte: u8)
    ensures
        byte == mode_byte(mode),
{
    match mode {
        TranslationMode::Eager => 0,
        TranslationMode::LazyTranslation => 1,
        TranslationMode::Lazy => 2,
    }
}

fn byte_to_mode(byte: u8) -> (mode: Option<TranslationMode>)
    ensures
        match mode {
            Some(value) => byte == mode_byte(value),
            None => forall|value: TranslationMode| byte != mode_byte(value),
        },
{
    if byte == 0 {
        Some(TranslationMode::Eager)
    } else if byte == 1 {
        Some(TranslationMode::LazyTranslation)
    } else if byte == 2 {
        Some(TranslationMode::Lazy)
    } else {
        None
    }
}

impl EngineConfig {
    /// The configuration of a deployment: fuel is metered and every function
    /// is translated when its module is created, so that a target never needs
    /// the translator. All instruction-set features are on.
    pub fn metered() -> (config: EngineConfig)
        ensures
            config == (EngineConfig {
                fuel_metering: true,
                translation: TranslationMode::Eager,
                multi_value: true,
                bulk_memory: true,
                reference_types: true,
                tail_call: true,
                floats: true,
            }),
    {
        EngineConfig {
            fuel_metering: true,
            translation: TranslationMode::Eager,
            multi_value: true,
            bulk_memory: true,
            reference_types: true,
            tail_call: true,
            floats: true,
        }
    }

    /// The fingerprint of this configuration.
    pub fn fingerprint(&self) -> (bytes: Vec<u8>)
        ensures
            bytes@ == fingerprint_of(*self),
    {
        let mut bytes: Vec<u8> = Vec::new();
        bytes.push(FINGERPRINT_VERSION);
        bytes.push(flag_to_byte(self.fuel_metering));
        bytes.push(mode_to_byte(self.translation));
        bytes.push(flag_to_byte(self.multi_value));
        bytes.push(flag_to_byte(self.bulk_memory));
        bytes.push(flag_to_byte(self.reference_types));
        bytes.push(flag_to_byte(self.tail_call));
        bytes.push(flag_to_byte(self.floats));
        assert(bytes@ =~= fingerprint_of(*self));
        bytes
    }

    /// Reads a fingerprint back.
    ///
    /// Gives the one configuration that has `bytes` as its fingerprint, and
    /// `None` exactly when no configuration has.
    pub fn from_fingerprint(bytes: &[u8]) -> (config: Option<EngineConfig>)
        ensures
            match config {
                Some(found) => bytes@ == fingerprint_of(found),
                None => !is_fingerprint(bytes@),
            },
    {
        if bytes.len() != FINGERPRINT_LEN || bytes[0] != FINGERPRINT_VERSION {
            assert forall|c: EngineConfig| bytes@ != #[trigger] fingerprint_of(c) by {
                assert(fingerprint_of(c).len() == 8 && fingerprint_of(c)[0] == 1);
            }
            return None;
        }
        let fuel_metering = byte_to_flag(bytes[1]);
        let translation = byte_to_mode(bytes[2]);
        let multi_value = byte_to_flag(bytes[3]);
        let bulk_memory = byte_to_flag(bytes[4]);
        let reference_types = byte_to_flag(bytes[5]);
        let tail_call = byte_to_flag(bytes[6]);
        let floats = byte_to_flag(bytes[7]);
        match (
            fuel_metering,
            translation,
            multi_value,
            bulk_memory,
            reference_types,
            tail_call,
            floats,
        ) {
            (Some(f), Some(t), Some(mv), Some(bm), Some(rt), Some(tc), Some(fl)) => {
                let found = EngineConfig {
                    fuel_metering: f,
                    translation: t,
                    multi_value: mv,
                    bulk_memory: bm,
                    reference_types: rt,
                    tail_call: tc,
                    floats: fl,
                };
                assert(bytes@ =~= fingerprint_of(found));
                Some(found)
            },
            _ => {
                assert forall|c: EngineConfig| bytes@ != #[trigger] fingerprint_of(c) by {
                    let f = fingerprint_of(c);
                    if bytes@ == f {
                        assert(bytes@[1] == f[1] && bytes@[2] == f[2] && bytes@[3] == f[3]);
                        assert(bytes@[4] == f[4] && bytes@[5] == f[5] && bytes@[6] == f[6]);
                        assert(bytes@[7] == f[7]);
                    }
                }
                None
            },
        }
    }

    /// Whether a module built under `other` means the same under `self`:
    /// every option must match.
    pub fn compatible(&self, other: &EngineConfig) -> (same: bool)
        ensures
            same == (*self == *other),
            same == (fingerprint_of(*self) == fingerprint_of(*other)),
    {
        proof {
            lemma_fingerprint_injective(*self, *other);
        }
        self.fuel_metering == other.fuel_metering && self.translation == other.translation
            && self.multi_value == other.multi_value && self.bulk_memory == other.bulk_memory
            && self.reference_types == other.reference_types && self.tail_call == other.tail_call
            && self.floats == other.floats
    }
}

} // verus!
