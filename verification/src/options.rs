//! The options of the compiler driver.

use crate::cmdline::{find_same, CmdInfoView, CmdLine, CmdLineView, CmdValType};
use vstd::prelude::*;

verus! {

/// The command line `v` with one more option, if `add` accepts it.
pub open spec fn with_option(
    v: CmdLineView,
    short: Seq<char>,
    long: Seq<char>,
    help: Seq<char>,
    val_type: CmdValType,
    val_str: Seq<char>,
) -> CmdLineView {
    v.added(short, long, help, val_type, val_str).0
}

/// The command line `v` with the options of the driver, in the order in
/// which its help shows them.
pub open spec fn with_compiler_options(v: CmdLineView) -> CmdLineView {
    let v = with_option(v, ""@, "--help"@, "Show this help info."@, CmdValType::NoVal, ""@);
    let v = with_option(v, ""@, "--version"@, "Show version number."@, CmdValType::NoVal, ""@);
    let v = with_option(
        v,
        "-o"@,
        ""@,
        "Place the output into <file>."@,
        CmdValType::ValSpace,
        "file"@,
    );
    let v = with_option(
        v,
        "-D"@,
        ""@,
        "Add macro definition."@,
        CmdValType::ValOptSpace,
        "macro[=<value>]"@,
    );
    let v = with_option(
        v,
        "-I"@,
        ""@,
        "Add the header file index path."@,
        CmdValType::ValOptSpace,
        "path"@,
    );
    let v = with_option(
        v,
        "-v"@,
        ""@,
        "Display the programs invoked by the compiler."@,
        CmdValType::NoVal,
        ""@,
    );
    let v = with_option(
        v,
        "-###"@,
        ""@,
        "Like -v but options quoted and commands not executed."@,
        CmdValType::NoVal,
        ""@,
    );
    let v = with_option(
        v,
        "-E"@,
        ""@,
        "Preprocess only; do not compile, assemble or link."@,
        CmdValType::NoVal,
        ""@,
    );
    let v = with_option(
        v,
        "-S"@,
        ""@,
        "Compile only; do not assemble or link."@,
        CmdValType::NoVal,
        ""@,
    );
    let v = with_option(
        v,
        "-c"@,
        ""@,
        "Compile and assemble, but do not link."@,
        CmdValType::NoVal,
        ""@,
    );
    let v = with_option(
        v,
        "-pie"@,
        ""@,
        "Create a dynamically linked position independent executable."@,
        CmdValType::NoVal,
        ""@,
    );
    with_option(
        v,
        "-std="@,
        ""@,
        "Set language standards for use."@,
        CmdValType::ValNoSpace,
        ""@,
    )
}

/// Adds the options of the driver to `cmdline`. One that `cmdline` holds
/// already is left out.
pub fn add_cmd_info(cmdline: &mut CmdLine)
    ensures
        final(cmdline)@ == with_compiler_options(old(cmdline)@),
{
    let _ = cmdline.add("", "--help", "Show this help info.", CmdValType::NoVal, "");
    let _ = cmdline.add("", "--version", "Show version number.", CmdValType::NoVal, "");
    let _ = cmdline.add("-o", "", "Place the output into <file>.", CmdValType::ValSpace, "file");
    let _ = cmdline.add(
        "-D",
        "",
        "Add macro definition.",
        CmdValType::ValOptSpace,
        "macro[=<value>]",
    );
    let _ = cmdline.add(
        "-I",
        "",
        "Add the header file index path.",
        CmdValType::ValOptSpace,
        "path",
    );
    let _ = cmdline.add(
        "-v",
        "",
        "Display the programs invoked by the compiler.",
        CmdValType::NoVal,
        "",
    );
    let _ = cmdline.add(
        "-###",
        "",
        "Like -v but options quoted and commands not executed.",
        CmdValType::NoVal,
        "",
    );
    let _ = cmdline.add(
        "-E",
        "",
        "Preprocess only; do not compile, assemble or link.",
        CmdValType::NoVal,
        "",
    );
    let _ = cmdline.add("-S", "", "Compile only; do not assemble or link.", CmdValType::NoVal, "");
    let _ = cmdline.add("-c", "", "Compile and assemble, but do not link.", CmdValType::NoVal, "");
    let _ = cmdline.add(
        "-pie",
        "",
        "Create a dynamically linked position independent executable.",
        CmdValType::NoVal,
        "",
    );
    let _ = cmdline.add(
        "-std=",
        "",
        "Set language standards for use.",
        CmdValType::ValNoSpace,
        "",
    );
}

/// The names of the driver's options, long or short, in order.
pub open spec fn compiler_option_names() -> Seq<Seq<char>> {
    seq![
        "--help"@,
        "--version"@,
        "-o"@,
        "-D"@,
        "-I"@,
        "-v"@,
        "-###"@,
        "-E"@,
        "-S"@,
        "-c"@,
        "-pie"@,
        "-std="@,
    ]
}

/// The name of an option: the short one, or the long one if there is no
/// short one.
pub open spec fn first_name(c: CmdInfoView) -> Seq<char> {
    if c.short.len() > 0 {
        c.short
    } else {
        c.long
    }
}

/// A command line without options gets all twelve options of the driver:
/// none is refused and none is left out. They stand in the order of
/// their names, and the index of each is its place.
pub proof fn lemma_compiler_options(v: CmdLineView)
    requires
        v.info.len() == 0,
    ensures
        with_compiler_options(v).args == v.args,
        with_compiler_options(v).others == v.others,
        with_compiler_options(v).info.len() == 12,
        forall|i: int|
            0 <= i < 12 ==> (#[trigger] with_compiler_options(v).info[i]).index == i
                && first_name(with_compiler_options(v).info[i]) == compiler_option_names()[i],
{
    reveal_with_fuel(find_same, 13);
    reveal_strlit("");
    reveal_strlit("--help");
    reveal_strlit("--version");
    reveal_strlit("-o");
    reveal_strlit("-D");
    reveal_strlit("-I");
    reveal_strlit("-v");
    reveal_strlit("-###");
    reveal_strlit("-E");
    reveal_strlit("-S");
    reveal_strlit("-c");
    reveal_strlit("-pie");
    reveal_strlit("-std=");
    reveal_strlit("Show this help info.");
    reveal_strlit("Show version number.");
    reveal_strlit("Place the output into <file>.");
    reveal_strlit("Add macro definition.");
    reveal_strlit("Add the header file index path.");
    reveal_strlit("Display the programs invoked by the compiler.");
    reveal_strlit("Like -v but options quoted and commands not executed.");
    reveal_strlit("Preprocess only; do not compile, assemble or link.");
    reveal_strlit("Compile only; do not assemble or link.");
    reveal_strlit("Compile and assemble, but do not link.");
    reveal_strlit("Create a dynamically linked position independent executable.");
    reveal_strlit("Set language standards for use.");
    assert("-o"@[1] == 'o');
    assert("-D"@[1] == 'D');
    assert("-I"@[1] == 'I');
    assert("-v"@[1] == 'v');
    assert("-E"@[1] == 'E');
    assert("-S"@[1] == 'S');
    assert("-c"@[1] == 'c');
    assert("-###"@[1] == '#');
    assert("-pie"@[1] == 'p');
    let v1 = with_option(v, ""@, "--help"@, "Show this help info."@, CmdValType::NoVal, ""@);
    assert(v1.info.len() == 1);
    let v2 = with_option(v1, ""@, "--version"@, "Show version number."@, CmdValType::NoVal, ""@);
    assert(v2.info.len() == 2);
    let v3 = with_option(
        v2,
        "-o"@,
        ""@,
        "Place the output into <file>."@,
        CmdValType::ValSpace,
        "file"@,
    );
    assert(v3.info.len() == 3);
    let v4 = with_option(
        v3,
        "-D"@,
        ""@,
        "Add macro definition."@,
        CmdValType::ValOptSpace,
        "macro[=<value>]"@,
    );
    assert(v4.info.len() == 4);
    let v5 = with_option(
        v4,
        "-I"@,
        ""@,
        "Add the header file index path."@,
        CmdValType::ValOptSpace,
        "path"@,
    );
    assert(v5.info.len() == 5);
    let v6 = with_option(
        v5,
        "-v"@,
        ""@,
        "Display the programs invoked by the compiler."@,
        CmdValType::NoVal,
        ""@,
    );
    assert(v6.info.len() == 6);
    let v7 = with_option(
        v6,
        "-###"@,
        ""@,
        "Like -v but options quoted and commands not executed."@,
        CmdValType::NoVal,
        ""@,
    );
    assert(v7.info.len() == 7);
    let v8 = with_option(
        v7,
        "-E"@,
        ""@,
        "Preprocess only; do not compile, assemble or link."@,
        CmdValType::NoVal,
        ""@,
    );
    assert(v8.info.len() == 8);
    let v9 = with_option(
        v8,
        "-S"@,
        ""@,
        "Compile only; do not assemble or link."@,
        CmdValType::NoVal,
        ""@,
    );
    assert(v9.info.len() == 9);
    let v10 = with_option(
        v9,
        "-c"@,
        ""@,
        "Compile and assemble, but do not link."@,
        CmdValType::NoVal,
        ""@,
    );
    assert(v10.info.len() == 10);
    let v11 = with_option(
        v10,
        "-pie"@,
        ""@,
        "Create a dynamically linked position independent executable."@,
        CmdValType::NoVal,
        ""@,
    );
    assert(v11.info.len() == 11);
    let v12 = with_compiler_options(v);
    assert(v12.info.len() == 12);
}

} // verus!
