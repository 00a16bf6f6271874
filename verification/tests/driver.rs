use cglua::Ident;
use cglua::driver::find_sysroot;
use cglua::driver::handle_native;
use cglua::driver::target_cpu;

#[test]
fn sysroot_joins_home_and_toolchain() {
    let r = find_sysroot(
        Some("/home/user/.rustup".to_owned()),
        Some("stable".to_owned()),
        None,
    );
    assert_eq!(r, "/home/user/.rustup/toolchains/stable");
}

#[test]
fn sysroot_falls_back_to_explicit_path() {
    let r = find_sysroot(None, None, Some("/opt/sysroot".to_owned()));
    assert_eq!(r, "/opt/sysroot");
}

#[test]
fn sysroot_prefers_home_and_toolchain_over_explicit() {
    let r = find_sysroot(
        Some("/h".to_owned()),
        Some("t".to_owned()),
        Some("/ignored".to_owned()),
    );
    assert_eq!(r, "/h/toolchains/t");
}

#[test]
fn handle_native_passes_ordinary_names_through() {
    assert_eq!(handle_native("x86-64"), "x86-64");
}

#[test]
fn target_cpu_prefers_requested_name() {
    assert_eq!(target_cpu(Some("skylake"), "generic"), "skylake");
    assert_eq!(target_cpu(None, "generic"), "generic");
}

#[test]
fn ident_incr_steps_one_level() {
    let base = Ident(0);
    let deeper = base.incr();
    assert_eq!(deeper, Ident(1));
    assert_eq!(deeper.incr(), Ident(2));
}

#[test]
fn ident_text_is_two_spaces_per_level() {
    assert_eq!(Ident(0).text(), "");
    assert_eq!(Ident(1).text(), "  ");
    assert_eq!(Ident(3).text(), "      ");
}
