use vstd::prelude::*;

verus! {

/// The operating systems whose module file names the library knows.
#[derive(Clone, Copy, PartialEq, Eq, Debug)]
pub enum Platform {
    Windows,
    Linux,
}

/// The game modules whose memory is scanned.
#[derive(Clone, Copy, PartialEq, Eq, Debug)]
pub enum ModuleName {
    Client,
    Engine,
}

/// The file name under which `module` is loaded on `platform`.
pub open spec fn module_file_name(module: ModuleName, platform: Platform) -> Seq<char> {
    match (module, platform) {
        (ModuleName::Client, Platform::Windows) => "client.dll"@,
        (ModuleName::Client, Platform::Linux) => "client.so"@,
        (ModuleName::Engine, Platform::Windows) => "engine.dll"@,
        (ModuleName::Engine, Platform::Linux) => "engine.so"@,
    }
}

impl ModuleName {
    /// The file name of this module on the given platform.
    pub fn file_name(&self, platform: Platform) -> (name: &'static str)
        ensures
            name@ == module_file_name(*self, platform),
    {
        match (self, platform) {
            (ModuleName::Client, Platform::Windows) => "client.dll",
            (ModuleName::Client, Platform::Linux) => "client.so",
            (ModuleName::Engine, Platform::Windows) => "engine.dll",
            (ModuleName::Engine, Platform::Linux) => "engine.so",
        }
    }
}

} // verus!
