//! A WebAssembly module decoder and interpreter.
use vstd::prelude::*;

pub mod leb128;
pub mod value;
pub mod instr;
pub mod module;
pub mod parse;
pub mod executor;
pub mod memory;
pub mod table;
pub mod global;
pub mod stack;
pub mod instance;

use crate::instance::{spec_instantiate, ImportObject, InstantiationError, ModuleInstance};
use crate::module::{Module, ModuleModel};
use crate::parse::{decodes_as, has_magic, has_version, spec_parse, ErrorKind, Failure};

verus! {

/// Decodes a binary module without instantiating it.
pub fn compile(buf_src: &[u8]) -> (r: Result<Module, parse::Error>)
    ensures
        decodes_as(r, spec_parse(buf_src@)),
{
    parse::parse(buf_src)
}

/// Why `instantiate` failed.
#[derive(Debug)]
pub enum Error {
    Decode(parse::Error),
    Instantiation(InstantiationError),
}

/// Decodes a binary module and instantiates it against `import_obj`.
pub fn instantiate(buf_src: &[u8], import_obj: &ImportObject) -> (r: Result<ModuleInstance, Error>)
    ensures
        match spec_parse(buf_src@) {
            Err(f) => r matches Err(Error::Decode(e)) && (e.kind, e.offset as int) == f,
            Ok(m) => match spec_instantiate(m, import_obj@) {
                Err(e) => r matches Err(Error::Instantiation(e2)) && e2 == e,
                Ok(s) => r matches Ok(inst) && inst.instance_of(m, s),
            },
        },
{
    let module = match parse::parse(buf_src) {
        Ok(m) => m,
        Err(e) => {
            return Err(Error::Decode(e));
        },
    };
    match ModuleInstance::new(module, import_obj) {
        Ok(inst) => Ok(inst),
        Err(e) => Err(Error::Instantiation(e)),
    }
}

/// Whether `compile` succeeds on the binary.
pub fn validate(buf_src: &[u8]) -> (r: bool)
    ensures
        r == spec_parse(buf_src@) is Ok,
{
    parse::parse(buf_src).is_ok()
}

/// The first eight bytes alone decide a header failure: a binary that does
/// not start with the magic `00 61 73 6D` fails with `InvalidBinaryMagic` at
/// offset 0, one with the magic but without the version `01 00 00 00` fails
/// with `InvalidBinaryVersion` at offset 4, whatever bytes follow.
pub proof fn lemma_header_decides(a: Seq<u8>, b: Seq<u8>)
    requires
        a.len() >= 8,
        b.len() >= 8,
        a.subrange(0, 8) == b.subrange(0, 8),
        !(has_magic(a) && has_version(a)),
    ensures
        spec_parse(a) == spec_parse(b),
        !has_magic(a) ==> spec_parse(a) == Err::<ModuleModel, Failure>(
            (ErrorKind::InvalidBinaryMagic, 0),
        ),
        has_magic(a) ==> spec_parse(a) == Err::<ModuleModel, Failure>(
            (ErrorKind::InvalidBinaryVersion, 4),
        ),
{
    let (x, y) = (a.subrange(0, 8), b.subrange(0, 8));
    assert(a[0] == x[0] && a[1] == x[1] && a[2] == x[2] && a[3] == x[3]);
    assert(a[4] == x[4] && a[5] == x[5] && a[6] == x[6] && a[7] == x[7]);
    assert(b[0] == y[0] && b[1] == y[1] && b[2] == y[2] && b[3] == y[3]);
    assert(b[4] == y[4] && b[5] == y[5] && b[6] == y[6] && b[7] == y[7]);
}

/// A binary shorter than the header fails on the header.
pub proof fn lemma_short_binary_fails(a: Seq<u8>)
    requires
        a.len() < 8,
    ensures
        spec_parse(a) is Err,
        a.len() < 4 ==> spec_parse(a) == Err::<ModuleModel, Failure>(
            (ErrorKind::InvalidBinaryMagic, 0),
        ),
{
}

} // verus!
