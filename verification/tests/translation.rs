use build_rs_libnix::dispatch::{Bucket, Severity};
use build_rs_libnix::error::{ErrorKind, TranslateError};
use build_rs_libnix::translate::Diagnostic;
use build_rs_libnix::{handle_content, TheResult};

fn translate(input: &str, links: Option<&str>) -> Result<TheResult, TranslateError> {
    let mut side = Vec::new();
    handle_content(input.to_string(), links.map(|s| s.to_string()), &mut side)
}

fn strings(items: &[&str]) -> Vec<String> {
    items.iter().map(|s| s.to_string()).collect()
}

#[test]
fn rustc_cfg_lines_join_in_order() {
    let out =
        translate("cargo:rustc-cfg=freebsd11\ncargo:rustc-cfg=libc_const_extern_fn\n", None).unwrap();
    assert_eq!(out.rustc_arguments.join(" "), "--cfg 'freebsd11' --cfg 'libc_const_extern_fn'");
    assert_eq!(out.joined(Bucket::RustcArguments), "--cfg 'freebsd11' --cfg 'libc_const_extern_fn'");
    assert!(out.rustc_propagated_arguments.is_empty());
    assert!(out.environment_variables.is_empty());
}

#[test]
fn rustc_check_cfg_lines_join_in_order() {
    let out = translate(
        "cargo:rustc-check-cfg=cfg(espidf_time32)\ncargo:rustc-check-cfg=cfg(libc_ctest)\n",
        None,
    )
    .unwrap();
    assert_eq!(
        out.joined(Bucket::RustcArguments),
        "--check-cfg 'cfg(espidf_time32)' --check-cfg 'cfg(libc_ctest)'"
    );
}

#[test]
fn mixed_cfg_and_check_cfg_keep_line_order() {
    let out = translate(
        "cargo:rustc-cfg=freebsd11\n\
         cargo:rustc-check-cfg=cfg(libc_ctest)\n\
         cargo:rustc-cfg=libc_const_extern_fn\n\
         cargo:rustc-check-cfg=cfg(target_arch,values(\"mips64r6\"))\n",
        None,
    )
    .unwrap();
    assert_eq!(
        out.rustc_arguments,
        strings(&[
            "--cfg 'freebsd11'",
            "--check-cfg 'cfg(libc_ctest)'",
            "--cfg 'libc_const_extern_fn'",
            "--check-cfg 'cfg(target_arch,values(\"mips64r6\"))'",
        ])
    );
}

#[test]
fn rustc_env_makes_an_assignment() {
    let out = translate("cargo:rustc-env=NAME=VAL", None).unwrap();
    assert_eq!(out.environment_variables, strings(&["NAME='VAL'"]));
    assert!(out.rustc_arguments.is_empty());
    assert!(out.rustc_propagated_arguments.is_empty());
}

#[test]
fn rustc_env_splits_at_the_last_equals_sign() {
    let out = translate("cargo:rustc-env=A=B=C\ncargo:rustc-env=EMPTY=\ncargo:rustc-env=X=  y", None)
        .unwrap();
    assert_eq!(out.environment_variables, strings(&["A=B='C'", "EMPTY=''", "X='y'"]));
}

#[test]
fn rustc_env_without_equals_sign_is_fatal() {
    let e = translate("cargo:rustc-cfg=a\ncargo:rustc-env=BROKEN\ncargo:rustc-cfg=b", None)
        .unwrap_err();
    assert_eq!(e.kind, ErrorKind::MalformedCompoundValue);
    assert_eq!(e.line_number, 1);
    assert_eq!(e.line, "cargo:rustc-env=BROKEN");
    assert_eq!(e.key, "rustc-env");
    assert_eq!(e.message(), "Unable to parse rustc-env argument at 1: 'cargo:rustc-env=BROKEN'");
}

#[test]
fn rustc_env_with_nothing_before_the_equals_sign_is_fatal() {
    let e = translate("cargo:rustc-env==x", None).unwrap_err();
    assert_eq!(e.kind, ErrorKind::MalformedCompoundValue);
}

#[test]
fn link_search_goes_to_both_buckets() {
    let out = translate("cargo:rustc-link-search=native=/some/path", None).unwrap();
    assert_eq!(out.rustc_propagated_arguments, strings(&["-L 'native=/some/path'"]));
    assert_eq!(out.rustc_arguments, strings(&["-L \"native=$out\""]));
    assert!(out.environment_variables.is_empty());
}

#[test]
fn link_search_without_mode_is_fatal() {
    for line in ["cargo:rustc-link-search=/some/path", "cargo:rustc-link-search==/p"] {
        let e = translate(line, None).unwrap_err();
        assert_eq!(e.kind, ErrorKind::MalformedCompoundValue);
        assert_eq!(e.line_number, 0);
        assert_eq!(e.key, "rustc-link-search");
    }
    let e = translate("cargo:rustc-link-search=native=", None).unwrap_err();
    assert_eq!(e.kind, ErrorKind::MalformedCompoundValue);
    assert_eq!(
        e.message(),
        "Unable to parse rustc-link-search argument at 0: 'cargo:rustc-link-search=native='"
    );
}

#[test]
fn link_search_takes_the_last_equals_sign_with_a_path_behind_it() {
    let out = translate("cargo:rustc-link-search=a=b=/p\ncargo:rustc-link-search=m=p=", None).unwrap();
    assert_eq!(out.rustc_propagated_arguments, strings(&["-L 'a=b=/p'", "-L 'm=p='"]));
    assert_eq!(out.rustc_arguments, strings(&["-L \"a=b=$out\"", "-L \"m=$out\""]));
}

#[test]
fn link_lib_and_link_search() {
    let out = translate(
        "cargo:rustc-link-lib=static=sqlite3\ncargo:rustc-link-search=native=/nix/store/xyz/lib",
        None,
    )
    .unwrap();
    assert_eq!(out.joined(Bucket::RustcArguments), "-l 'static=sqlite3' -L \"native=$out\"");
    assert_eq!(out.joined(Bucket::RustcPropagatedArguments), "-L 'native=/nix/store/xyz/lib'");
    assert_eq!(out.joined(Bucket::EnvironmentVariables), "");
}

#[test]
fn link_arg_bin_is_not_implemented() {
    for value in ["X", "-Wl,-rpath", "a=b", "'quoted'"] {
        let e = translate(&format!("cargo:rustc-link-arg-bin={}", value), Some("Z")).unwrap_err();
        assert_eq!(e.kind, ErrorKind::UnimplementedDirective);
        assert_eq!(e.key, "rustc-link-arg-bin");
        assert_eq!(e.message(), "Command: 'rustc-link-arg-bin' on line: '0' not implemented yet!");
    }
}

#[test]
fn every_unsupported_key_is_not_implemented() {
    for key in [
        "rustc-cdylib-link-arg",
        "rustc-link-arg-cdylib",
        "rustc-link-arg-bin",
        "rustc-link-arg-bins",
        "rustc-link-arg-tests",
        "rustc-link-arg-examples",
        "rustc-flags",
        "rustc-link-arg",
        "metadata",
    ] {
        let e = translate(&format!("# note\ncargo:{}=x", key), None).unwrap_err();
        assert_eq!(e.kind, ErrorKind::UnimplementedDirective);
        assert_eq!(e.line_number, 1);
        assert_eq!(e.key, key);
    }
}

#[test]
fn unknown_key_is_fatal() {
    for key in ["rustc-bin-link-arg", "RUSTC-CFG", "rustc-cfg ", "foo", "rustc_cfg"] {
        let e = translate(&format!("cargo:{}=x", key), None).unwrap_err();
        assert_eq!(e.kind, ErrorKind::UnknownDirective);
        assert_eq!(e.key, key);
    }
    let e = translate("cargo:foo=bar", None).unwrap_err();
    assert_eq!(e.message(), "Command: 'foo' on line: '0' is not a known directive");
}

#[test]
fn malformed_directive_is_fatal() {
    for line in ["cargo:rustc-cfg", "cargo:=x", "cargo:rustc-cfg=", "cargo:", "cargo:rustc-cfg=   "] {
        let input = format!("first\nsecond\n{}\ncargo:rustc-cfg=never", line);
        let e = translate(&input, None).unwrap_err();
        assert_eq!(e.kind, ErrorKind::MalformedDirective);
        assert_eq!(e.line_number, 2);
        assert_eq!(e.line, line);
        assert_eq!(e.key, "");
    }
    let e = translate("cargo:rustc-cfg", None).unwrap_err();
    assert_eq!(e.message(), "Unknown command to parse on line 0: 'cargo:rustc-cfg'");
}

#[test]
fn metadata_keys_name_variables_after_the_links_name() {
    let out = translate(
        "cargo:include=/build/sqlite3\n\
         cargo:root=/nix/store/z\n\
         cargo:conf=OPENSSL_NO_SSL3_METHOD\n\
         cargo:version_number=30400010\n\
         cargo:static=1",
        Some("SQLITE3"),
    )
    .unwrap();
    assert_eq!(
        out.environment_variables,
        strings(&[
            "DEP_SQLITE3_INCLUDE='/build/sqlite3'",
            "DEP_SQLITE3_ROOT='/nix/store/z'",
            "DEP_SQLITE3_CONF='OPENSSL_NO_SSL3_METHOD'",
            "DEP_SQLITE3_VERSION_NUMBER='30400010'",
            "DEP_SQLITE3_STATIC='1'",
        ])
    );
    assert_eq!(
        out.joined(Bucket::EnvironmentVariables),
        "DEP_SQLITE3_INCLUDE='/build/sqlite3'\nDEP_SQLITE3_ROOT='/nix/store/z'\n\
         DEP_SQLITE3_CONF='OPENSSL_NO_SSL3_METHOD'\nDEP_SQLITE3_VERSION_NUMBER='30400010'\n\
         DEP_SQLITE3_STATIC='1'"
    );
}

#[test]
fn metadata_key_without_links_name_is_fatal() {
    for key in ["include", "root", "conf", "version_number", "static"] {
        let e = translate(&format!("cargo:{}=x", key), None).unwrap_err();
        assert_eq!(e.kind, ErrorKind::MissingNamespace);
        assert_eq!(e.key, key);
    }
    let e = translate("\n\ncargo:root=/r", None).unwrap_err();
    assert_eq!(e.line_number, 2);
    assert_eq!(e.message(), "Command: 'root' on line: '2' needs the links name of the package");
}

#[test]
fn link_arg_benches_goes_to_the_compiler_arguments() {
    let out = translate("cargo:rustc-link-arg-benches=-Wl,-z,now", None).unwrap();
    assert_eq!(out.rustc_arguments, strings(&["-C link-arg='-Wl,-z,now'"]));
}

#[test]
fn ignored_keys_change_nothing() {
    let out = translate(
        "cargo:lib_dir=/build/tmp\n\
         cargo:rerun-if-changed=build.rs\n\
         cargo:rerun-if-env-changed=CC\n\
         cargo:rerun-if-changed-bin=x\n\
         cargo:rerun-if-changed-glob=*.c\n\
         cargo:rerun-if-changed-dir=src\n\
         cargo:rerun-if-changed-recursive=src\n\
         cargo:rerun-if-changed-env=CC\n",
        None,
    );
    let mut side = Vec::new();
    let again = handle_content("cargo:rerun-if-changed=build.rs".to_string(), None, &mut side);
    assert!(side.is_empty());
    for out in [out.unwrap(), again.unwrap()] {
        assert!(out.rustc_arguments.is_empty());
        assert!(out.rustc_propagated_arguments.is_empty());
        assert!(out.environment_variables.is_empty());
    }
}

#[test]
fn lines_that_are_no_directives_are_passed_over() {
    let out = translate(
        "Compiling foo v0.1.0\n\n  \nnot cargo:rustc-cfg=a\nCARGO:rustc-cfg=b\ncargo:rustc-cfg=c\n",
        None,
    )
    .unwrap();
    assert_eq!(out.rustc_arguments, strings(&["--cfg 'c'"]));
}

#[test]
fn whitespace_around_a_line_and_after_the_equals_sign_does_not_count() {
    let out =
        translate("  cargo:rustc-cfg=a  \r\n\tcargo:rustc-cfg=   b c\t\ncargo:rustc-cfg=\u{a0}d", None)
            .unwrap();
    assert_eq!(out.rustc_arguments, strings(&["--cfg 'a'", "--cfg 'b c'", "--cfg 'd'"]));
}

#[test]
fn whitespace_before_the_equals_sign_belongs_to_the_key() {
    let e = translate("cargo:rustc-cfg =a", None).unwrap_err();
    assert_eq!(e.kind, ErrorKind::UnknownDirective);
    assert_eq!(e.key, "rustc-cfg ");
}

#[test]
fn quotes_in_a_value_are_not_escaped() {
    let out = translate("cargo:rustc-cfg=feature=\"it's\"", None).unwrap();
    assert_eq!(out.rustc_arguments, strings(&["--cfg 'feature=\"it's\"'"]));
}

#[test]
fn messages_go_to_the_side_channel_and_do_not_stop() {
    let mut side = vec![Diagnostic {
        severity: Severity::Warning,
        message: "earlier".to_string(),
        line_number: 7,
    }];
    let out = handle_content(
        "cargo:warning=careful\nplain\ncargo:error=broken\ncargo:rustc-cfg=a".to_string(),
        None,
        &mut side,
    )
    .unwrap();
    assert_eq!(out.rustc_arguments, strings(&["--cfg 'a'"]));
    assert_eq!(
        side,
        vec![
            Diagnostic { severity: Severity::Warning, message: "earlier".to_string(), line_number: 7 },
            Diagnostic { severity: Severity::Warning, message: "careful".to_string(), line_number: 0 },
            Diagnostic { severity: Severity::Error, message: "broken".to_string(), line_number: 2 },
        ]
    );
}

#[test]
fn side_channel_ends_at_the_line_that_fails() {
    let mut side = Vec::new();
    let r = handle_content(
        "cargo:warning=one\ncargo:metadata=x\ncargo:warning=two".to_string(),
        None,
        &mut side,
    );
    assert_eq!(r.unwrap_err().kind, ErrorKind::UnimplementedDirective);
    assert_eq!(
        side,
        vec![Diagnostic { severity: Severity::Warning, message: "one".to_string(), line_number: 0 }]
    );
}

#[test]
fn first_failing_line_decides_the_error() {
    let e = translate("cargo:rustc-cfg=a\ncargo:foo=1\ncargo:metadata=2\ncargo:broken", None)
        .unwrap_err();
    assert_eq!(
        e,
        TranslateError {
            kind: ErrorKind::UnknownDirective,
            line_number: 1,
            line: "cargo:foo=1".to_string(),
            key: "foo".to_string(),
        }
    );
}

#[test]
fn empty_document_gives_empty_buckets() {
    for input in ["", "\n", "\n\n\n", "no directive at all"] {
        let out = translate(input, Some("X")).unwrap();
        assert_eq!(
            out,
            TheResult {
                rustc_arguments: vec![],
                rustc_propagated_arguments: vec![],
                environment_variables: vec![],
            }
        );
    }
}

#[test]
fn same_input_gives_the_same_translation() {
    let input = "cargo:rustc-cfg=a\ncargo:warning=w\ncargo:rustc-env=K=V\n\
                 cargo:rustc-link-search=native=/p\ncargo:include=/i\n";
    let mut side_one = Vec::new();
    let mut side_two = Vec::new();
    let one = handle_content(input.to_string(), Some("NS".to_string()), &mut side_one);
    let two = handle_content(input.to_string(), Some("NS".to_string()), &mut side_two);
    assert_eq!(one, two);
    assert_eq!(side_one, side_two);
    assert_eq!(one.unwrap().environment_variables, strings(&["K='V'", "DEP_NS_INCLUDE='/i'"]));
    let failing = "cargo:rustc-cfg=a\ncargo:include=/i\n";
    assert_eq!(translate(failing, None), translate(failing, None));
    assert!(translate(failing, None).is_err());
}

#[test]
fn entries_stand_in_line_order_in_each_bucket() {
    let out = translate(
        "cargo:rustc-env=A=1\n\
         cargo:rustc-link-search=native=/one\n\
         cargo:rustc-cfg=x\n\
         cargo:static=1\n\
         cargo:rustc-link-search=framework=/two\n\
         cargo:rustc-link-lib=z\n\
         cargo:rustc-env=B=2\n",
        Some("Z"),
    )
    .unwrap();
    assert_eq!(
        out.rustc_arguments,
        strings(&["-L \"native=$out\"", "--cfg 'x'", "-L \"framework=$out\"", "-l 'z'"])
    );
    assert_eq!(
        out.rustc_propagated_arguments,
        strings(&["-L 'native=/one'", "-L 'framework=/two'"])
    );
    assert_eq!(out.environment_variables, strings(&["A='1'", "DEP_Z_STATIC='1'", "B='2'"]));
}

#[test]
fn line_numbers_in_errors_count_every_line() {
    let mut input = String::new();
    for _ in 0..123 {
        input.push_str("plain\n");
    }
    input.push_str("cargo:rustc-flags=-l z\n");
    let e = translate(&input, None).unwrap_err();
    assert_eq!(e.line_number, 123);
    assert_eq!(e.message(), "Command: 'rustc-flags' on line: '123' not implemented yet!");
}

#[test]
fn bucket_access_and_push() {
    let mut out = TheResult::new();
    assert!(out.bucket(Bucket::RustcArguments).is_empty());
    out.push(build_rs_libnix::dispatch::Entry {
        bucket: Bucket::RustcPropagatedArguments,
        text: "-L 'a=b'".to_string(),
    });
    out.push(build_rs_libnix::dispatch::Entry {
        bucket: Bucket::EnvironmentVariables,
        text: "A='1'".to_string(),
    });
    out.push(build_rs_libnix::dispatch::Entry {
        bucket: Bucket::EnvironmentVariables,
        text: "B='2'".to_string(),
    });
    assert_eq!(out.bucket(Bucket::RustcPropagatedArguments), &strings(&["-L 'a=b'"]));
    assert_eq!(out.bucket(Bucket::EnvironmentVariables), &strings(&["A='1'", "B='2'"]));
    assert!(out.bucket(Bucket::RustcArguments).is_empty());
    assert_eq!(out.joined(Bucket::EnvironmentVariables), "A='1'\nB='2'");
}

#[test]
fn messages_are_shown_with_their_severity() {
    let warning =
        Diagnostic { severity: Severity::Warning, message: "careful".to_string(), line_number: 0 };
    let error = Diagnostic { severity: Severity::Error, message: "broken".to_string(), line_number: 1 };
    assert_eq!(warning.text(), "\u{1b}[1;33mwarning\u{1b}[0m: careful");
    assert_eq!(error.text(), "\u{1b}[1;31merror\u{1b}[0m: broken");
}
