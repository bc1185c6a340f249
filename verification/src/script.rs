use vstd::prelude::*;

verus! {

// ---------------------------------------------------------------------------
// The scripting engine boundary. Manifests are scripts; evaluating one and
// reading its fields goes through mlua. What a script yields depends on the
// script alone, so nothing is promised of these calls: the loader validates
// whatever comes back in verified code, and the hook runner swallows every
// hook error.
// ---------------------------------------------------------------------------
#[verifier::external_type_specification]
#[verifier::external_body]
pub struct ExLua(mlua::Lua);

#[verifier::external_type_specification]
#[verifier::external_body]
pub struct ExTable(mlua::Table);

#[verifier::external_type_specification]
#[verifier::external_body]
pub struct ExFunction(mlua::Function);

#[verifier::external_type_specification]
#[verifier::external_body]
pub struct ExLuaError(mlua::Error);

/// Relies on mlua's Chunk::eval (through Lua::load): evaluates the manifest
/// source as a script expression yielding a table. What comes back, and
/// whether evaluation fails, depends on the script.
#[verifier::external_body]
pub(crate) fn eval_manifest_table(lua: &mlua::Lua, source: &str) -> (r: Result<
    mlua::Table,
    mlua::Error,
>) {
    lua.load(source).eval::<mlua::Table>()
}

/// Relies on mlua's Table::get: reads an optional string field; a missing
/// field is `None`, a field of the wrong kind an error.
#[verifier::external_body]
pub(crate) fn table_get_string(t: &mlua::Table, key: &str) -> (r: Result<
    Option<String>,
    mlua::Error,
>) {
    t.get::<Option<String>>(key)
}

/// Relies on mlua's Table::get: reads an optional callable field; a missing
/// field is `None`, a field of the wrong kind an error.
#[verifier::external_body]
pub(crate) fn table_get_function(t: &mlua::Table, key: &str) -> (r: Result<
    Option<mlua::Function>,
    mlua::Error,
>) {
    t.get::<Option<mlua::Function>>(key)
}

/// Relies on mlua's Function::call: runs the hook with no arguments and
/// discards its result; an error the hook raises is swallowed here.
#[verifier::external_body]
fn call_hook(f: &mlua::Function) {
    let _ = f.call::<()>(());
}

/// Runs one optional hook, before or after an install or uninstall action.
/// Hook errors are discarded, so a failing hook never prevents the action it
/// decorates from being attempted and recorded.
pub fn run_hook(hook: &Option<mlua::Function>) {
    match hook {
        Some(f) => call_hook(f),
        None => (),
    }
}

} // verus!
