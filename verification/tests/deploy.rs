use website::deploy::{merge_ssh_options, power_script, send_script};
use website::{PackMode, PowerOptions};
use website::UserPermissions;

#[test]
fn pack_mode_parts() {
    assert!(PackMode::Bin.bin());
    assert!(!PackMode::Bin.static_files());
    assert!(!PackMode::Static.bin());
    assert!(PackMode::Static.static_files());
    assert!(PackMode::Both.bin());
    assert!(PackMode::Both.static_files());
}

#[test]
fn power_options_actions() {
    assert!(PowerOptions::Start.start());
    assert!(!PowerOptions::Start.stop());
    assert!(!PowerOptions::Stop.start());
    assert!(PowerOptions::Stop.stop());
    assert!(PowerOptions::Both.start());
    assert!(PowerOptions::Both.stop());
}

#[test]
fn power_scripts_are_exact() {
    assert_eq!(power_script(PowerOptions::Stop), "cd boolco.dev\n./stop.sh\n");
    assert_eq!(power_script(PowerOptions::Start), "cd boolco.dev\n./start.sh\n");
    assert_eq!(
        power_script(PowerOptions::Both),
        "cd boolco.dev\n./stop.sh\n./start.sh\n"
    );
}

#[test]
fn send_scripts_are_exact() {
    assert_eq!(
        send_script(PackMode::Bin, false),
        "cd boolco.dev\nunzip -o build.zip\n"
    );
    assert_eq!(
        send_script(PackMode::Bin, true),
        "cd boolco.dev\n./stop.sh\nunzip -o build.zip\n./start.sh\n"
    );
    assert_eq!(
        send_script(PackMode::Both, true),
        "cd boolco.dev\n./stop.sh\nrm -rf static\nrm -rf res\nunzip -o build.zip\n./start.sh\n"
    );
    assert_eq!(
        send_script(PackMode::Static, false),
        "cd boolco.dev\nrm -rf static\nrm -rf res\nunzip -o build.zip\n"
    );
}

#[test]
fn explicit_ssh_options_beat_cached_ones() {
    let (k, p) = merge_ssh_options(
        Some("cached-key".to_owned()),
        Some(22),
        None,
        Some(2222),
    );
    assert_eq!(k.as_deref(), Some("cached-key"));
    assert_eq!(p, Some(2222));

    let (k, p) = merge_ssh_options(None, None, Some("new-key".to_owned()), None);
    assert_eq!(k.as_deref(), Some("new-key"));
    assert_eq!(p, None);
}

#[test]
fn permission_bits_behave() {
    let mut p = UserPermissions::default();
    assert!(!p.is_admin());
    assert!(!p.is_short());

    p.short(true);
    assert!(!p.is_admin());
    assert!(p.is_short());

    p.short(false);
    p.admin(true);
    // admin implies the short-link capability
    assert!(p.is_admin());
    assert!(p.is_short());

    p.admin(false);
    assert!(!p.is_admin());
    assert!(!p.is_short());

    let q = UserPermissions::from_flags(true, false);
    assert!(q.is_admin() && q.is_short());
    let r = UserPermissions::from_flags(false, true);
    assert!(!r.is_admin() && r.is_short());
}
