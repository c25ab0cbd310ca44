use desym::config::{Entry, Ownership};
use desym::created::CreatedPaths;
use desym::install::{
    atomic_install, file_up_to_date, handle_clobber, is_up_to_date, link_up_to_date, settle_clobber,
    ClobberStep, Install, InstallAction, InstallEvent, InstallOutcome, Kind, Observation,
    SwapAction, SwapEvent, StageFailure,
};

fn file_entry() -> Entry {
    Entry { source: "export EDITOR=nvim\n".to_string(), uid: 1000, gid: 1000, mode: 0o644 }
}

fn link_entry() -> Entry {
    Entry { source: "/home/u/dots/init.lua".to_string(), uid: 1000, gid: 1000, mode: u32::MAX }
}

fn seen_file(content: &str, mode: u32) -> Observation {
    Observation::File { content: content.as_bytes().to_vec(), owner: Ownership { uid: 1000, gid: 1000, mode } }
}

fn armed_with(paths: &[&str]) -> CreatedPaths {
    let mut c = CreatedPaths::armed();
    for p in paths {
        c.record(p.to_string());
    }
    c
}

#[test]
fn file_matches_on_content_owner_and_permission_bits() {
    let e = file_entry();
    assert!(file_up_to_date(&e, &seen_file("export EDITOR=nvim\n", 0o100644)));
    assert!(!file_up_to_date(&e, &seen_file("export EDITOR=vim\n", 0o100644)));
    assert!(!file_up_to_date(&e, &seen_file("export EDITOR=nvim\n", 0o100600)));
    let other_owner = Observation::File { content: b"export EDITOR=nvim\n".to_vec(), owner: Ownership { uid: 0, gid: 1000, mode: 0o644 } };
    assert!(!file_up_to_date(&e, &other_owner));
    assert!(!file_up_to_date(&e, &Observation::Missing));
    let with_type_bits = Entry { mode: 0o100644, ..file_entry() };
    assert!(file_up_to_date(&with_type_bits, &seen_file("export EDITOR=nvim\n", 0o100644)));
}

#[test]
fn file_with_special_bits_is_current_after_a_run() {
    // chmod 4755 leaves st_mode 0o104755: only the permission bits are compared.
    let setuid = Entry { mode: 0o4755, ..file_entry() };
    assert!(file_up_to_date(&setuid, &seen_file("export EDITOR=nvim\n", 0o104755)));
    assert!(!file_up_to_date(&setuid, &seen_file("export EDITOR=nvim\n", 0o100644)));
}

#[test]
fn file_content_is_compared_as_utf8_bytes() {
    let e = Entry { source: "héllo".to_string(), uid: 1, gid: 1, mode: 0o600 };
    let seen = Observation::File { content: "héllo".as_bytes().to_vec(), owner: Ownership { uid: 1, gid: 1, mode: 0o600 } };
    assert!(file_up_to_date(&e, &seen));
}

#[test]
fn link_matches_on_its_target_path() {
    let e = link_entry();
    assert!(link_up_to_date(&e, &Observation::Symlink { target: "/home/u/dots/init.lua".to_string() }));
    assert!(link_up_to_date(&e, &Observation::Symlink { target: "/home//u/dots/./init.lua".to_string() }));
    assert!(!link_up_to_date(&e, &Observation::Symlink { target: "/home/u/dots/other.lua".to_string() }));
    assert!(!link_up_to_date(&e, &Observation::Other));
    let relative = Entry { source: "../dots/x".to_string(), ..link_entry() };
    assert!(link_up_to_date(&relative, &Observation::Symlink { target: "../dots/x".to_string() }));
    assert!(is_up_to_date(Kind::Symlink, &e, &Observation::Symlink { target: "/home/u/dots/init.lua".to_string() }));
    assert!(!is_up_to_date(Kind::File, &e, &Observation::Symlink { target: "/home/u/dots/init.lua".to_string() }));
}

#[test]
fn up_to_date_file_is_left_alone() {
    let (mut i, a) = Install::begin(Kind::File, "/home/u/.zshrc".to_string(), file_entry());
    assert!(matches!(a, InstallAction::Inspect { path, kind: Kind::File } if path == "/home/u/.zshrc"));
    match i.advance(InstallEvent::Inspected(Ok(seen_file("export EDITOR=nvim\n", 0o100644)))) {
        InstallAction::Finish { outcome, rollback } => {
            assert_eq!(outcome, Ok(InstallOutcome::Unchanged));
            assert!(rollback.is_empty());
        }
        _ => panic!("expected to finish"),
    }
}

#[test]
fn inspection_failure_ends_the_install() {
    let (mut i, _) = Install::begin(Kind::File, "/f".to_string(), file_entry());
    match i.advance(InstallEvent::Inspected(Err("permission denied".to_string()))) {
        InstallAction::Finish { outcome, rollback } => {
            assert_eq!(outcome, Err("permission denied".to_string()));
            assert!(rollback.is_empty());
        }
        _ => panic!("expected to finish"),
    }
}

/// Drives a file install up to staging and returns the staging path.
fn staged_file(i: &mut Install) -> String {
    match i.advance(InstallEvent::Inspected(Ok(Observation::Missing))) {
        InstallAction::PrepareParents { path, uid, gid } => assert_eq!((path.as_str(), uid, gid), ("/home/u/.zshrc", 1000, 1000)),
        _ => panic!("expected parents"),
    }
    match i.advance(InstallEvent::Prepared(Ok(armed_with(&["/home/u"])))) {
        InstallAction::StageFile { limbo, content, uid, gid, mode } => {
            assert!(limbo.starts_with("/home/u/.zshrc_") && limbo.ends_with(".limbo"));
            assert_eq!(content, "export EDITOR=nvim\n");
            assert_eq!((uid, gid, mode), (1000, 1000, 0o644));
            limbo
        }
        _ => panic!("expected staging"),
    }
}

#[test]
fn changed_file_is_staged_swapped_in_and_reported() {
    let (mut i, _) = Install::begin(Kind::File, "/home/u/.zshrc".to_string(), file_entry());
    let limbo = staged_file(&mut i);
    match i.advance(InstallEvent::Staged(Ok(()))) {
        InstallAction::Install { target, limbo: l } => {
            assert_eq!(target, "/home/u/.zshrc");
            assert_eq!(l, limbo);
        }
        _ => panic!("expected install"),
    }
    match i.advance(InstallEvent::Installed(Ok(Some("/home/u/.zshrc_id.bak".to_string())))) {
        InstallAction::Report(text) => assert_eq!(text, "Wrote to, Path: /home/u/.zshrc"),
        _ => panic!("expected report"),
    }
    assert!(matches!(i.advance(InstallEvent::Reported), InstallAction::HandleClobber(b) if b == "/home/u/.zshrc_id.bak"));
    match i.advance(InstallEvent::ClobberHandled(Err("cannot remove".to_string()))) {
        InstallAction::Finish { outcome, rollback } => {
            assert_eq!(outcome, Err("cannot remove".to_string()));
            assert!(rollback.is_empty());
        }
        _ => panic!("expected to finish"),
    }
}

#[test]
fn new_file_without_backup_finishes_written() {
    let (mut i, _) = Install::begin(Kind::File, "/home/u/.zshrc".to_string(), file_entry());
    staged_file(&mut i);
    i.advance(InstallEvent::Staged(Ok(())));
    i.advance(InstallEvent::Installed(Ok(None)));
    match i.advance(InstallEvent::Reported) {
        InstallAction::Finish { outcome, rollback } => {
            assert_eq!(outcome, Ok(InstallOutcome::Written));
            assert!(rollback.is_empty());
        }
        _ => panic!("expected to finish"),
    }
}

#[test]
fn failed_staging_discards_the_staging_file() {
    let (mut i, _) = Install::begin(Kind::File, "/home/u/.zshrc".to_string(), file_entry());
    let limbo = staged_file(&mut i);
    assert!(matches!(i.advance(InstallEvent::Staged(Err(StageFailure::WriteFile("disk full".to_string())))), InstallAction::Discard { limbo: l } if l == limbo));
    match i.advance(InstallEvent::Discarded(Ok(()))) {
        InstallAction::Finish { outcome, rollback } => {
            assert_eq!(outcome, Err(format!("Failed to write to file, Path: {}, Error: disk full", limbo)));
            assert_eq!(rollback, vec!["/home/u".to_string()]);
        }
        _ => panic!("expected to finish"),
    }
}

#[test]
fn failed_discard_reports_both_errors() {
    let (mut i, _) = Install::begin(Kind::File, "/home/u/.zshrc".to_string(), file_entry());
    let limbo = staged_file(&mut i);
    i.advance(InstallEvent::Staged(Err(StageFailure::Permissions("Failed to chmod x as 420: denied".to_string()))));
    match i.advance(InstallEvent::Discarded(Err("busy".to_string()))) {
        InstallAction::Finish { outcome, .. } => {
            assert_eq!(outcome, Err(format!("Failed to chmod x as 420: denied, Double whammy, file potentially stuck in limbo {}: busy", limbo)));
        }
        _ => panic!("expected to finish"),
    }
}

#[test]
fn failed_swap_rolls_back_new_directories() {
    let (mut i, _) = Install::begin(Kind::File, "/home/u/.zshrc".to_string(), file_entry());
    staged_file(&mut i);
    i.advance(InstallEvent::Staged(Ok(())));
    match i.advance(InstallEvent::Installed(Err("rename failed".to_string()))) {
        InstallAction::Finish { outcome, rollback } => {
            assert_eq!(outcome, Err("rename failed".to_string()));
            assert_eq!(rollback, vec!["/home/u".to_string()]);
        }
        _ => panic!("expected to finish"),
    }
}

#[test]
fn failed_parents_end_the_install() {
    let (mut i, _) = Install::begin(Kind::Symlink, "/a/b".to_string(), link_entry());
    i.advance(InstallEvent::Inspected(Ok(Observation::Other)));
    match i.advance(InstallEvent::Prepared(Err("no space".to_string()))) {
        InstallAction::Finish { outcome, rollback } => {
            assert_eq!(outcome, Err("no space".to_string()));
            assert!(rollback.is_empty());
        }
        _ => panic!("expected to finish"),
    }
}

#[test]
fn symlink_is_staged_and_reported() {
    let (mut i, _) = Install::begin(Kind::Symlink, "/home/u/.config/nvim/init.lua".to_string(), link_entry());
    i.advance(InstallEvent::Inspected(Ok(Observation::Symlink { target: "/elsewhere".to_string() })));
    match i.advance(InstallEvent::Prepared(Ok(CreatedPaths::default()))) {
        InstallAction::StageLink { limbo, source } => {
            assert!(limbo.starts_with("/home/u/.config/nvim/init.lua_") && limbo.ends_with(".limbo"));
            assert_eq!(source, "/home/u/dots/init.lua");
        }
        _ => panic!("expected staging"),
    }
    i.advance(InstallEvent::Staged(Ok(())));
    match i.advance(InstallEvent::Installed(Ok(None))) {
        InstallAction::Report(text) => {
            assert_eq!(text, "Created symlink: /home/u/.config/nvim/init.lua -> /home/u/dots/init.lua")
        }
        _ => panic!("expected report"),
    }
}

#[test]
fn failed_symlink_staging_ends_at_once() {
    let (mut i, _) = Install::begin(Kind::Symlink, "/l".to_string(), link_entry());
    i.advance(InstallEvent::Inspected(Ok(Observation::Missing)));
    i.advance(InstallEvent::Prepared(Ok(armed_with(&["/x"]))));
    assert!(!i.awaits(&InstallEvent::Reported));
    match i.advance(InstallEvent::Staged(Err(StageFailure::CreateLink("File exists (os error 17)".to_string())))) {
        InstallAction::Finish { outcome, rollback } => {
            assert_eq!(outcome, Err("Failed, could not create symlink: /l -> /home/u/dots/init.lua, Err: File exists (os error 17)".to_string()));
            assert_eq!(rollback, vec!["/x".to_string()]);
        }
        _ => panic!("expected to finish"),
    }
}

#[test]
fn clobber_follows_the_setting_or_asks() {
    assert_eq!(handle_clobber(None, None), ClobberStep::Nothing);
    assert_eq!(handle_clobber(Some("/b.bak".to_string()), Some(true)), ClobberStep::Keep);
    assert_eq!(handle_clobber(Some("/b.bak".to_string()), Some(false)), ClobberStep::Remove("/b.bak".to_string()));
    assert_eq!(
        handle_clobber(Some("/b.bak".to_string()), None),
        ClobberStep::Ask {
            backup: "/b.bak".to_string(),
            question: "Would you like to keep the clobbered file: /b.bak?".to_string()
        }
    );
    assert_eq!(settle_clobber("/b.bak".to_string(), true), ClobberStep::Keep);
    assert_eq!(settle_clobber("/b.bak".to_string(), false), ClobberStep::Remove("/b.bak".to_string()));
}

#[test]
fn swap_onto_free_target_renames() {
    let (mut s, a) = atomic_install("/t".to_string(), "/t_x.limbo".to_string());
    assert!(matches!(a, SwapAction::Probe { target } if target == "/t"));
    assert!(matches!(s.advance(SwapEvent::Probed(Ok(false))), SwapAction::Rename { limbo, target } if limbo == "/t_x.limbo" && target == "/t"));
    assert!(matches!(s.advance(SwapEvent::Renamed(Ok(()))), SwapAction::Finish(Ok(None))));
}

#[test]
fn swap_onto_occupied_target_keeps_a_backup() {
    let (mut s, _) = atomic_install("/t".to_string(), "/t_x.limbo".to_string());
    assert!(matches!(s.advance(SwapEvent::Probed(Ok(true))), SwapAction::Exchange { .. }));
    let backup = match s.advance(SwapEvent::Exchanged(Ok(()))) {
        SwapAction::MoveAside { limbo, backup } => {
            assert_eq!(limbo, "/t_x.limbo");
            assert!(backup.starts_with("/t_") && backup.ends_with(".bak"));
            assert_eq!(backup.len(), "/t_".len() + 36 + ".bak".len());
            backup
        }
        _ => panic!("expected move aside"),
    };
    assert!(matches!(s.advance(SwapEvent::MovedAside(Ok(()))), SwapAction::Finish(Ok(Some(b))) if b == backup));
}

#[test]
fn failed_swap_cleans_up_the_staging_path() {
    let (mut s, _) = atomic_install("/t".to_string(), "/t_x.limbo".to_string());
    s.advance(SwapEvent::Probed(Ok(true)));
    assert!(matches!(s.advance(SwapEvent::Exchanged(Err("EXDEV".to_string()))), SwapAction::CleanUp { limbo } if limbo == "/t_x.limbo"));
    assert!(matches!(s.advance(SwapEvent::CleanedUp), SwapAction::Finish(Err(e)) if e == "EXDEV"));
    let (mut s, _) = atomic_install("/t".to_string(), "/l".to_string());
    assert!(matches!(s.advance(SwapEvent::Probed(Err("denied".to_string()))), SwapAction::Finish(Err(e)) if e == "denied"));
    let (mut s, _) = atomic_install("/t".to_string(), "/l".to_string());
    s.advance(SwapEvent::Probed(Ok(false)));
    assert!(matches!(s.advance(SwapEvent::Renamed(Err("x".to_string()))), SwapAction::CleanUp { .. }));
    assert!(!s.awaits(&SwapEvent::Renamed(Ok(()))));
}
