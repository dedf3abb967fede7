//! Driver bookkeeping of a script realm: one JS context per pipeline, many
//! drivers installed into it as named global functions. The realm's host
//! evaluates the JS this module produces; this module decides what to
//! evaluate and which drivers can run.

use std::collections::HashMap;
use vstd::prelude::*;
use crate::chars::{chars_of, push_all, string_of};
use crate::errors::{digits, push_digits};
use crate::script::{hash_source, hashes_source, ScriptDriverId, ScriptError};

verus! {

/// Name of the global function that runs a driver: the id in decimal keeps
/// it a valid JS property name.
pub open spec fn driver_fn_name_spec(id: u64) -> Seq<char> {
    "__opencatDriver_"@ + digits(id as nat, 10)
}

/// Name of the global function that runs `id`.
pub fn driver_fn_name(id: ScriptDriverId) -> (r: String)
    ensures
        r@ == driver_fn_name_spec(id.0),
{
    let mut out = chars_of("__opencatDriver_");
    push_digits(&mut out, id.0, 10);
    string_of(&out)
}

/// JS that defines the driver function around the script source.
pub open spec fn define_driver_js(id: u64, source: Seq<char>) -> Seq<char> {
    "globalThis."@ + driver_fn_name_spec(id) + " = function() {\n"@ + source + "\n};"@
}

/// JS that registers the driver function in the realm's driver table.
pub open spec fn register_driver_js(id: u64) -> Seq<char> {
    "globalThis.__opencatDrivers['"@ + digits(id as nat, 10) + "'] = globalThis."@
        + driver_fn_name_spec(id) + ";"@
}

/// Text of the error for a frame of a driver the realm has not installed.
pub open spec fn not_installed_text(id: u64) -> Seq<char> {
    "script driver "@ + digits(id as nat, 10) + " not installed in realm"@
}

/// The drivers installed in a realm, by id.
pub struct RealmDrivers {
    pub installed: HashMap<u64, ()>,
}

/// The JS a host evaluates to install a driver: its definition, then its
/// registration.
pub struct DriverInstall {
    pub define_js: String,
    pub register_js: String,
}

impl RealmDrivers {
    /// A realm with no drivers.
    pub fn new() -> (r: Self)
        ensures
            r.installed@ == Map::<u64, ()>::empty(),
    {
        RealmDrivers { installed: HashMap::new() }
    }

    /// Installs a script: its id is what `driver_id_from_source` gives for
    /// its source (the hash value itself is not stated). An id seen
    /// before is not installed again, so realm-local state its earlier
    /// frames set is kept; a new one yields the JS to evaluate.
    pub fn install(&mut self, source: &str) -> (r: (ScriptDriverId, Option<DriverInstall>))
        ensures
            hashes_source(source@, r.0),
            final(self).installed@ == after_install(old(self).installed@, r.0.0),
            old(self).installed@.contains_key(r.0.0) ==> r.1 is None,
            !old(self).installed@.contains_key(r.0.0) ==> (r.1 matches Some(js)
                && js.define_js@ == define_driver_js(r.0.0, source@) && js.register_js@
                == register_driver_js(r.0.0)),
    {
        broadcast use vstd::std_specs::hash::group_hash_axioms;

        let id = hash_source(source);
        if self.installed.contains_key(&id.0) {
            return (id, None);
        }
        let name = chars_of(driver_fn_name(id).as_str());
        let mut define = chars_of("globalThis.");
        push_all(&mut define, &name);
        push_all(&mut define, &chars_of(" = function() {\n"));
        push_all(&mut define, &chars_of(source));
        push_all(&mut define, &chars_of("\n};"));
        let mut register = chars_of("globalThis.__opencatDrivers['");
        push_digits(&mut register, id.0, 10);
        push_all(&mut register, &chars_of("'] = globalThis."));
        push_all(&mut register, &name);
        push_all(&mut register, &chars_of(";"));
        assert(define@ =~= define_driver_js(id.0, source@));
        assert(register@ =~= register_driver_js(id.0));
        self.installed.insert(id.0, ());
        (id, Some(DriverInstall { define_js: string_of(&define), register_js: string_of(&register) }))
    }

    /// The function a frame of `driver` calls, or the error when the driver
    /// is not installed.
    pub fn run_target(&self, driver: ScriptDriverId) -> (r: Result<String, ScriptError>)
        ensures
            match r {
                Ok(name) => self.installed@.contains_key(driver.0) && name@ == driver_fn_name_spec(
                    driver.0,
                ),
                Err(e) => !self.installed@.contains_key(driver.0) && e.message@ == not_installed_text(
                    driver.0,
                ),
            },
    {
        broadcast use vstd::std_specs::hash::group_hash_axioms;

        if !self.installed.contains_key(&driver.0) {
            let mut out = chars_of("script driver ");
            push_digits(&mut out, driver.0, 10);
            push_all(&mut out, &chars_of(" not installed in realm"));
            assert(out@ =~= not_installed_text(driver.0));
            return Err(ScriptError { message: string_of(&out) });
        }
        Ok(driver_fn_name(driver))
    }
}

/// The drivers a realm holds after installing a driver with id `id`.
pub open spec fn after_install(installed: Map<u64, ()>, id: u64) -> Map<u64, ()> {
    if installed.contains_key(id) {
        installed
    } else {
        installed.insert(id, ())
    }
}

/// Installing a driver id twice installs it once: after the first install
/// the driver is known, so the second yields no JS and changes nothing.
pub proof fn lemma_install_once(installed: Map<u64, ()>, id: u64)
    ensures
        after_install(installed, id).contains_key(id),
        after_install(after_install(installed, id), id) == after_install(installed, id),
{
}

} // verus!
