//! Selection of the assembler format and linker per host platform. The
//! caller passes the host operating system's name and performs the actual
//! toolchain invocation itself.

use vstd::prelude::*;

verus! {

/// How the generated assembly is turned into an executable on one platform:
/// the assembler's object format, the file extensions, and the linker.
pub struct TargetConfig {
    pub nasm_format: String,
    pub object_ext: String,
    pub exec_ext: String,
    pub linker: String,
}

/// Whether two string slices hold the same characters.
fn str_eq(a: &str, b: &str) -> (r: bool)
    ensures
        r == (a@ == b@),
{
    let sa = String::from_str(a);
    let sb = String::from_str(b);
    sa == sb
}

/// The toolchain configuration for the host operating system named `os`,
/// or an error naming an unsupported one.
pub fn get_target_config(os: &str) -> (r: Result<TargetConfig, String>)
    ensures
        os@ == "linux"@ ==> r is Ok,
        os@ == "macos"@ ==> r is Ok,
        os@ == "windows"@ ==> r is Ok,
        r is Ok ==> (os@ == "linux"@ || os@ == "macos"@ || os@ == "windows"@),
        os@ == "linux"@ ==> {
            let c = r->Ok_0;
            c.nasm_format@ == "elf64"@ && c.object_ext@ == ".o"@ && c.exec_ext@ == ""@
                && c.linker@ == "ld"@
        },
        os@ == "macos"@ ==> {
            let c = r->Ok_0;
            c.nasm_format@ == "macho64"@ && c.object_ext@ == ".o"@ && c.exec_ext@ == ""@
                && c.linker@ == "ld"@
        },
        os@ == "windows"@ ==> {
            let c = r->Ok_0;
            c.nasm_format@ == "win64"@ && c.object_ext@ == ".obj"@ && c.exec_ext@ == ""@
                && c.linker@ == "lld-link"@
        },
        r is Err ==> r->Err_0@ == "unsupported OS: "@ + os@,
{
    proof {
        reveal_strlit("linux");
        reveal_strlit("macos");
        reveal_strlit("windows");
        assert("linux"@[0] == 'l' && "macos"@[0] == 'm' && "windows"@[0] == 'w');
        assert("linux"@ != "macos"@);
        assert("linux"@ != "windows"@);
        assert("macos"@ != "windows"@);
    }
    if str_eq(os, "linux") {
        Ok(
            TargetConfig {
                nasm_format: String::from_str("elf64"),
                object_ext: String::from_str(".o"),
                exec_ext: String::from_str(""),
                linker: String::from_str("ld"),
            },
        )
    } else if str_eq(os, "macos") {
        Ok(
            TargetConfig {
                nasm_format: String::from_str("macho64"),
                object_ext: String::from_str(".o"),
                exec_ext: String::from_str(""),
                linker: String::from_str("ld"),
            },
        )
    } else if str_eq(os, "windows") {
        Ok(
            TargetConfig {
                nasm_format: String::from_str("win64"),
                object_ext: String::from_str(".obj"),
                exec_ext: String::from_str(""),
                linker: String::from_str("lld-link"),
            },
        )
    } else {
        Err(String::from_str("unsupported OS: ").concat(os))
    }
}

} // verus!
