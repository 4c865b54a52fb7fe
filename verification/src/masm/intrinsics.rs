//! The modules of intrinsics.
use vstd::prelude::*;
use crate::text::same_text;

verus! {

pub const I32_INTRINSICS_MODULE_NAME: &'static str = "intrinsics::i32";

pub const I64_INTRINSICS_MODULE_NAME: &'static str = "intrinsics::i64";

pub const I128_INTRINSICS_MODULE_NAME: &'static str = "intrinsics::i128";

pub const MEM_INTRINSICS_MODULE_NAME: &'static str = "intrinsics::mem";

pub const CRYPTO_INTRINSICS_MODULE_NAME: &'static str = "intrinsics::crypto";

pub const ADVICE_INTRINSICS_MODULE_NAME: &'static str = "intrinsics::advice";

/// A module of intrinsics.
#[derive(Clone, Copy, PartialEq, Eq, Debug, Structural)]
pub enum IntrinsicsModule {
    I32,
    I64,
    I128,
    Mem,
    Crypto,
    Advice,
}

impl IntrinsicsModule {
    /// The name of the module.
    pub open spec fn named(self) -> Seq<char> {
        match self {
            IntrinsicsModule::I32 => I32_INTRINSICS_MODULE_NAME@,
            IntrinsicsModule::I64 => I64_INTRINSICS_MODULE_NAME@,
            IntrinsicsModule::I128 => I128_INTRINSICS_MODULE_NAME@,
            IntrinsicsModule::Mem => MEM_INTRINSICS_MODULE_NAME@,
            IntrinsicsModule::Crypto => CRYPTO_INTRINSICS_MODULE_NAME@,
            IntrinsicsModule::Advice => ADVICE_INTRINSICS_MODULE_NAME@,
        }
    }

    /// The name of the module.
    pub fn name(&self) -> (name: &'static str)
        ensures
            name@ == self.named(),
    {
        match self {
            IntrinsicsModule::I32 => I32_INTRINSICS_MODULE_NAME,
            IntrinsicsModule::I64 => I64_INTRINSICS_MODULE_NAME,
            IntrinsicsModule::I128 => I128_INTRINSICS_MODULE_NAME,
            IntrinsicsModule::Mem => MEM_INTRINSICS_MODULE_NAME,
            IntrinsicsModule::Crypto => CRYPTO_INTRINSICS_MODULE_NAME,
            IntrinsicsModule::Advice => ADVICE_INTRINSICS_MODULE_NAME,
        }
    }

    /// The file that holds the code of the module.
    pub open spec fn in_file(self) -> Seq<char> {
        match self {
            IntrinsicsModule::I32 => "intrinsics/i32.masm"@,
            IntrinsicsModule::I64 => "intrinsics/i64.masm"@,
            IntrinsicsModule::I128 => "intrinsics/i128.masm"@,
            IntrinsicsModule::Mem => "intrinsics/mem.masm"@,
            IntrinsicsModule::Crypto => "intrinsics/crypto.masm"@,
            IntrinsicsModule::Advice => "intrinsics/advice.masm"@,
        }
    }

    /// The file that holds the code of the module.
    pub fn file(&self) -> (file: &'static str)
        ensures
            file@ == self.in_file(),
    {
        match self {
            IntrinsicsModule::I32 => "intrinsics/i32.masm",
            IntrinsicsModule::I64 => "intrinsics/i64.masm",
            IntrinsicsModule::I128 => "intrinsics/i128.masm",
            IntrinsicsModule::Mem => "intrinsics/mem.masm",
            IntrinsicsModule::Crypto => "intrinsics/crypto.masm",
            IntrinsicsModule::Advice => "intrinsics/advice.masm",
        }
    }
}

/// The name is that of a module of intrinsics.
pub open spec fn is_intrinsics_name(name: Seq<char>) -> bool {
    exists|module: IntrinsicsModule| #[trigger] module.named() == name
}

/// The module of intrinsics with the given name, if there is one. The name is given in full, as
/// in `intrinsics::mem`.
pub fn load(name: &str) -> (module: Option<IntrinsicsModule>)
    ensures
        match module {
            Some(module) => module.named() == name@,
            None => !is_intrinsics_name(name@),
        },
{
    if same_text(name, I32_INTRINSICS_MODULE_NAME) {
        return Some(IntrinsicsModule::I32);
    }
    if same_text(name, I64_INTRINSICS_MODULE_NAME) {
        return Some(IntrinsicsModule::I64);
    }
    if same_text(name, I128_INTRINSICS_MODULE_NAME) {
        return Some(IntrinsicsModule::I128);
    }
    if same_text(name, MEM_INTRINSICS_MODULE_NAME) {
        return Some(IntrinsicsModule::Mem);
    }
    if same_text(name, CRYPTO_INTRINSICS_MODULE_NAME) {
        return Some(IntrinsicsModule::Crypto);
    }
    if same_text(name, ADVICE_INTRINSICS_MODULE_NAME) {
        return Some(IntrinsicsModule::Advice);
    }
    None
}

/// Whether the name is that of a module of intrinsics.
pub fn is_intrinsics_module(name: &str) -> (b: bool)
    ensures
        b == is_intrinsics_name(name@),
{
    match load(name) {
        Some(module) => {
            assert(module.named() == name@);
            true
        },
        None => false,
    }
}

} // verus!
