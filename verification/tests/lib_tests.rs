use mince::module_name::{ModuleName, Platform};

#[test]
fn it_works() {
    let result = 2 + 2;
    assert_eq!(result, 4);
}

#[test]
fn module_file_names_per_platform() {
    assert_eq!(ModuleName::Client.file_name(Platform::Windows), "client.dll");
    assert_eq!(ModuleName::Client.file_name(Platform::Linux), "client.so");
    assert_eq!(ModuleName::Engine.file_name(Platform::Windows), "engine.dll");
    assert_eq!(ModuleName::Engine.file_name(Platform::Linux), "engine.so");
}
