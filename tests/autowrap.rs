use std::collections::HashMap;

use brioche_packer::closure::{find_library, LibraryClosure, LookupOutcome};
use brioche_packer::config::{DynamicLinkingConfig, RewrapConfig};
use brioche_packer::error::AutowrapError;
use brioche_packer::kind::{autowrap_kind, kind_from_parts, AutowrapKind, ElfSummary};
use brioche_packer::paths::join_path;
use brioche_packer::shebang::parse_shebang_line;
use brioche_packer::wrap::{
    autowrap_rewrap, command_search_paths, link_dependencies, require_symlink, relative_interpreter, script_invocation, InvocationArg,
};

fn strings(items: &[&str]) -> Vec<String> {
    items.iter().map(|s| s.to_string()).collect()
}

fn linking(skip: &[&str], extra: &[&str], skip_unknown: bool) -> DynamicLinkingConfig {
    DynamicLinkingConfig {
        skip_libraries: strings(skip),
        extra_libraries: strings(extra),
        skip_unknown_libraries: skip_unknown,
    }
}

/// A library on the fake disk: the directory holding it and its needed libraries.
struct FakeLibrary {
    dir: &'static str,
    needed: Vec<&'static str>,
}

/// Drives a closure over a fake disk, as the resolver's caller does; returns
/// the emitted directories and the names embedded, in order.
fn resolve(
    libraries: &HashMap<&'static str, FakeLibrary>,
    config: &DynamicLinkingConfig,
    declared: &[&str],
    search_paths: &[&str],
) -> Result<(Vec<String>, Vec<String>), AutowrapError> {
    let mut closure = LibraryClosure::new(config, &strings(declared), strings(search_paths));
    let mut embedded = vec![];
    while let Some(name) = closure.next_library() {
        let present: Vec<bool> = closure
            .search_paths()
            .iter()
            .map(|dir| libraries.get(name.as_str()).is_some_and(|l| l.dir == dir))
            .collect();
        let found = find_library(closure.search_paths(), &name, &present);
        let outcome = closure.record_lookup(&name, found.is_some())?;
        if outcome == LookupOutcome::Dropped {
            continue;
        }
        if outcome == LookupOutcome::Embed {
            embedded.push(name.clone());
            closure.record_library_dir(format!("res/{name}"));
        }
        let needed = strings(&libraries[name.as_str()].needed);
        closure.enqueue(&needed);
    }
    Ok((closure.into_library_dirs(), embedded))
}

fn diamond() -> HashMap<&'static str, FakeLibrary> {
    let mut libraries = HashMap::new();
    libraries.insert("libA.so", FakeLibrary { dir: "/lib1", needed: vec!["libC.so"] });
    libraries.insert("libB.so", FakeLibrary { dir: "/lib2", needed: vec!["libC.so"] });
    libraries.insert("libC.so", FakeLibrary { dir: "/lib2", needed: vec![] });
    libraries
}

#[test]
fn shebang_env_indirection_collapses() {
    let parsed = parse_shebang_line("/usr/bin/env python3 -u\n").unwrap();
    assert_eq!(parsed.command_name, "python3");
    assert_eq!(parsed.arg, None);
}

#[test]
fn shebang_keeps_single_argument() {
    let parsed = parse_shebang_line("/bin/sh -e\n").unwrap();
    assert_eq!(parsed.command_name, "sh");
    assert_eq!(parsed.arg, Some("-e".to_string()));
}

#[test]
fn shebang_without_argument() {
    let parsed = parse_shebang_line("/bin/true").unwrap();
    assert_eq!(parsed.command_name, "true");
    assert_eq!(parsed.arg, None);
}

#[test]
fn shebang_argument_is_not_split_further() {
    let parsed = parse_shebang_line("  /bin/bash   -e -x  \r\n").unwrap();
    assert_eq!(parsed.command_name, "bash");
    assert_eq!(parsed.arg, Some("-e -x".to_string()));
}

#[test]
fn shebang_env_without_command_fails() {
    assert_eq!(parse_shebang_line("/usr/bin/env\n"), Err(AutowrapError::MissingEnvCommand));
}

#[test]
fn shebang_backslash_separator_and_bare_name() {
    assert_eq!(parse_shebang_line("C:\\tools\\perl").unwrap().command_name, "perl");
    assert_eq!(parse_shebang_line("python").unwrap().command_name, "python");
}

#[test]
fn pack_takes_precedence_over_shebang() {
    assert_eq!(autowrap_kind(b"#!/bin/sh\n", true), Some(AutowrapKind::Rewrap));
    assert_eq!(autowrap_kind(b"", true), Some(AutowrapKind::Rewrap));
}

#[test]
fn shebang_bytes_classify_as_script() {
    assert_eq!(autowrap_kind(b"#!/bin/sh\necho hi\n", false), Some(AutowrapKind::Script));
    assert_eq!(autowrap_kind(b"#!", false), Some(AutowrapKind::Script));
}

#[test]
fn unknown_bytes_are_not_wrappable() {
    assert_eq!(autowrap_kind(b"", false), None);
    assert_eq!(autowrap_kind(b"#", false), None);
    assert_eq!(autowrap_kind(b"plain text file", false), None);
}

#[test]
fn classification_is_repeatable() {
    let contents = b"#!/usr/bin/env bash\n";
    let first = autowrap_kind(contents, false);
    assert_eq!(first, autowrap_kind(contents, false));
    assert_eq!(first, Some(AutowrapKind::Script));
}

/// A minimal little-endian 64-bit ELF header of the given object type.
fn elf_header(object_type: u16) -> Vec<u8> {
    let mut h = vec![0u8; 64];
    h[..4].copy_from_slice(b"\x7fELF");
    h[4] = 2;
    h[5] = 1;
    h[6] = 1;
    h[16..18].copy_from_slice(&object_type.to_le_bytes());
    h[18..20].copy_from_slice(&62u16.to_le_bytes());
    h[20..24].copy_from_slice(&1u32.to_le_bytes());
    h[52..54].copy_from_slice(&64u16.to_le_bytes());
    h[54..56].copy_from_slice(&56u16.to_le_bytes());
    h[58..60].copy_from_slice(&64u16.to_le_bytes());
    h
}

#[test]
fn elf_shared_object_classifies_as_shared_library() {
    let bytes = elf_header(3);
    let summary = ElfSummary::parse(&bytes).expect("header parses as ELF");
    assert!(summary.is_lib);
    assert_eq!(summary.interpreter, None);
    assert!(summary.libraries.is_empty());
    assert_eq!(autowrap_kind(&bytes, false), Some(AutowrapKind::SharedLibrary));
}

#[test]
fn static_elf_executable_is_not_wrappable() {
    let bytes = elf_header(2);
    assert!(ElfSummary::parse(&bytes).is_some());
    assert_eq!(autowrap_kind(&bytes, false), None);
}

#[test]
fn classification_from_parts() {
    let dynamic = Some(ElfSummary {
        interpreter: Some("/lib64/ld-linux-x86-64.so.2".to_string()),
        is_lib: true,
        libraries: strings(&["libc.so.6"]),
    });
    assert_eq!(kind_from_parts(false, b"\x7fELF", &dynamic), Some(AutowrapKind::DynamicBinary));
    let shared = Some(ElfSummary { interpreter: None, is_lib: true, libraries: vec![] });
    assert_eq!(kind_from_parts(false, b"\x7fELF", &shared), Some(AutowrapKind::SharedLibrary));
    let neither = Some(ElfSummary { interpreter: None, is_lib: false, libraries: vec![] });
    assert_eq!(kind_from_parts(false, b"\x7fELF", &neither), None);
    assert_eq!(kind_from_parts(true, b"#!", &dynamic), Some(AutowrapKind::Rewrap));
    assert_eq!(kind_from_parts(false, b"#!", &dynamic), Some(AutowrapKind::Script));
}

#[test]
fn shared_dependency_is_embedded_once() {
    let (dirs, embedded) =
        resolve(&diamond(), &linking(&[], &[], false), &["libA.so", "libB.so"], &["/lib1", "/lib2"])
            .unwrap();
    assert_eq!(embedded, strings(&["libA.so", "libB.so", "libC.so"]));
    assert_eq!(dirs, strings(&["res/libA.so", "res/libB.so", "res/libC.so"]));
}

#[test]
fn skipped_library_dependencies_are_still_resolved() {
    let mut libraries = diamond();
    libraries.insert("libS.so", FakeLibrary { dir: "/lib1", needed: vec!["libC.so"] });
    let config = linking(&["libS.so"], &["libS.so"], false);
    let (dirs, embedded) = resolve(&libraries, &config, &["libS.so"], &["/lib1", "/lib2"]).unwrap();
    assert_eq!(embedded, strings(&["libC.so"]));
    assert_eq!(dirs, strings(&["res/libC.so"]));
}

#[test]
fn declared_skipped_library_is_not_queued() {
    let config = linking(&["libA.so"], &[], false);
    let (dirs, _) = resolve(&diamond(), &config, &["libA.so"], &["/lib1"]).unwrap();
    assert!(dirs.is_empty());
}

#[test]
fn unknown_library_is_dropped_when_allowed() {
    let (dirs, embedded) =
        resolve(&diamond(), &linking(&[], &[], true), &["libX.so", "libC.so"], &["/lib2"]).unwrap();
    assert_eq!(embedded, strings(&["libC.so"]));
    assert_eq!(dirs, strings(&["res/libC.so"]));
}

#[test]
fn unknown_library_is_fatal_by_default() {
    let result = resolve(&diamond(), &linking(&[], &[], false), &["libX.so"], &["/lib2"]);
    assert_eq!(result, Err(AutowrapError::LibraryNotFound("libX.so".to_string())));
}

#[test]
fn extra_libraries_follow_declared_ones() {
    let mut closure = LibraryClosure::new(
        &linking(&["libc.so.6"], &["libextra.so"], false),
        &strings(&["libc.so.6", "libm.so.6"]),
        vec![],
    );
    assert_eq!(closure.next_library(), Some("libm.so.6".to_string()));
    assert_eq!(closure.next_library(), Some("libextra.so".to_string()));
    assert_eq!(closure.next_library(), None);
}

#[test]
fn repeated_library_dir_is_emitted_once() {
    let mut closure = LibraryClosure::new(&linking(&[], &[], false), &vec![], vec![]);
    assert!(closure.record_library_dir("res/a".to_string()));
    assert!(!closure.record_library_dir("res/a".to_string()));
    assert!(closure.record_library_dir("res/b".to_string()));
    assert_eq!(closure.into_library_dirs(), strings(&["res/a", "res/b"]));
}

#[test]
fn packed_dependency_extends_search_path() {
    let mut closure = LibraryClosure::new(&linking(&[], &[], false), &vec![], strings(&["/lib"]));
    closure.add_search_path("/resources/dir1".to_string());
    assert_eq!(closure.search_paths(), &strings(&["/lib", "/resources/dir1"]));
}

#[test]
fn find_library_takes_first_match() {
    let dirs = strings(&["/a", "/b/", "/c"]);
    assert_eq!(find_library(&dirs, "libz.so", &vec![false, true, true]), Some("/b/libz.so".to_string()));
    assert_eq!(find_library(&dirs, "libz.so", &vec![false, false, false]), None);
    assert_eq!(find_library(&dirs, "libz.so", &vec![true, true, true]), Some("/a/libz.so".to_string()));
}

#[test]
fn join_path_cases() {
    assert_eq!(join_path("/usr/lib", "libc.so"), "/usr/lib/libc.so");
    assert_eq!(join_path("/usr/lib/", "libc.so"), "/usr/lib/libc.so");
    assert_eq!(join_path("", "libc.so"), "libc.so");
    assert_eq!(join_path("/usr/lib", "/abs/libc.so"), "/abs/libc.so");
}

#[test]
fn interpreter_must_be_absolute() {
    assert_eq!(
        relative_interpreter("/lib64/ld-linux-x86-64.so.2"),
        Ok("lib64/ld-linux-x86-64.so.2".to_string())
    );
    assert_eq!(
        relative_interpreter("lib/ld.so"),
        Err(AutowrapError::InterpreterNotAbsolute("lib/ld.so".to_string()))
    );
    assert_eq!(relative_interpreter(""), Err(AutowrapError::InterpreterNotAbsolute(String::new())));
}

#[test]
fn rewrap_always_fails() {
    let expected = Err(AutowrapError::RewrapNotImplemented("out/bin/tool".to_string()));
    assert_eq!(autowrap_rewrap(&Some(RewrapConfig {}), "out/bin/tool"), expected);
    assert_eq!(autowrap_rewrap(&None, "out/bin/tool"), expected);
}

#[test]
fn self_dependency_comes_first() {
    let configured = strings(&["/deps/a", "/deps/b"]);
    assert_eq!(link_dependencies("/recipe", true, &configured), strings(&["/recipe", "/deps/a", "/deps/b"]));
    assert_eq!(link_dependencies("/recipe", false, &configured), configured);
}

#[test]
fn script_invocation_arguments() {
    assert_eq!(
        script_invocation(&Some("-e".to_string())),
        vec![InvocationArg::Literal("-e".to_string()), InvocationArg::ScriptResource, InvocationArg::Rest]
    );
    assert_eq!(script_invocation(&Some(String::new())), vec![InvocationArg::ScriptResource, InvocationArg::Rest]);
    assert_eq!(script_invocation(&None), vec![InvocationArg::ScriptResource, InvocationArg::Rest]);
}

#[test]
fn env_entries_must_be_symlinks() {
    assert_eq!(require_symlink("/dep/brioche-env.d/env/PATH/a", true), Ok(()));
    assert_eq!(
        require_symlink("/dep/brioche-env.d/env/PATH/b", false),
        Err(AutowrapError::NotASymlink("/dep/brioche-env.d/env/PATH/b".to_string()))
    );
}

#[test]
fn bin_dirs_follow_path_targets() {
    let roots = strings(&["/recipe", "/deps/a", "/deps/b/"]);
    let paths = command_search_paths(strings(&["/deps/a/tools"]), &roots, &vec![true, false, true]);
    assert_eq!(paths, strings(&["/deps/a/tools", "/recipe/bin", "/deps/b/bin"]));
    assert!(command_search_paths(vec![], &roots, &vec![false, false, false]).is_empty());
}
