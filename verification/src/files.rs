//! Where the proving key, verifying key and proof are kept.
use vstd::prelude::*;

verus! {

/// The file name of the proving key.
pub fn pk_file() -> (r: &'static str)
    ensures
        r@ == "license.pk.dat"@,
{
    "license.pk.dat"
}

/// The file name of the verifying key.
pub fn vk_file() -> (r: &'static str)
    ensures
        r@ == "license.vk.dat"@,
{
    "license.vk.dat"
}

/// The file name of the proof.
pub fn prf_file() -> (r: &'static str)
    ensures
        r@ == "license.proof.dat"@,
{
    "license.proof.dat"
}

/// The path of the file `name` under the prefix `path` (the two joined, as `format!("{}{}")` does).
pub fn file_under(path: &str, name: &str) -> (r: String)
    ensures
        r@ == path@ + name@,
{
    let mut s = String::from_str(path);
    s.append(name);
    s
}

/// The path of the verifying key under the prefix `path`.
pub fn vk_path(path: &str) -> (r: String)
    ensures
        r@ == path@ + "license.vk.dat"@,
{
    file_under(path, vk_file())
}

/// The path of the proof under the prefix `path`.
pub fn proof_path(path: &str) -> (r: String)
    ensures
        r@ == path@ + "license.proof.dat"@,
{
    file_under(path, prf_file())
}

} // verus!
