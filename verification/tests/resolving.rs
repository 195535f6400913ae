use patternsleuth_bind::composite::{
    ps_scan, ps_scan_internal, CompositeResolution, PsCtx, PsEngineVersion, PsScanConfig,
    PsScanResults,
};
use patternsleuth_bind::log::{
    build_aob_hint_message, build_failed_message, build_found_message, LogLevel,
};
use patternsleuth_bind::registry::{
    ps_resolve_batch, ps_resolve_batch_fill, ps_resolve_batch_plan, ps_resolve_single_finish,
    str_eq, Registry,
};

fn wide(s: &str) -> Vec<u16> {
    let mut v: Vec<u16> = s.encode_utf16().collect();
    v.push(0);
    v
}

fn all_requested() -> PsScanConfig {
    PsScanConfig {
        guobject_array: true,
        fname_tostring: true,
        fname_ctor_wchar: true,
        gmalloc: true,
        static_construct_object_internal: true,
        ftext_fstring: true,
        engine_version: true,
        fuobject_hash_tables_get: true,
        gnatives: true,
        console_manager_singleton: true,
    }
}

fn zero_results() -> PsScanResults {
    PsScanResults {
        guobject_array: 0,
        fname_tostring: 0,
        fname_ctor_wchar: 0,
        gmalloc: 0,
        static_construct_object_internal: 0,
        ftext_fstring: 0,
        engine_version: PsEngineVersion { major: 0, minor: 0 },
        fuobject_hash_tables_get: 0,
        gnatives: 0,
        console_manager_singleton: 0,
    }
}

fn all_ok_resolution() -> CompositeResolution {
    CompositeResolution {
        guobject_array: Ok(0x11),
        fname_tostring: Ok(0x22),
        fname_ctor_wchar: Ok(0x33),
        gmalloc: Ok(0x44),
        static_construct_object_internal: Ok(0x55),
        ftext_fstring: Ok(0x66),
        engine_version: Ok(PsEngineVersion { major: 4, minor: 27 }),
        fuobject_hash_tables_get: Ok(0x77),
        gnatives: Ok(0x88),
        console_manager_singleton: Ok(0x99),
    }
}

fn transcript(level: &LogLevel) -> Vec<Vec<u16>> {
    let mut out = Vec::new();
    let n = level.count();
    let mut i = 0;
    while i < n {
        out.push(level.message(i).clone());
        i += 1;
    }
    out
}

#[test]
fn composite_all_ok_succeeds_and_reports_values() {
    let mut ctx = PsCtx::new(all_requested());
    let mut results = zero_results();
    let resolution = all_ok_resolution();
    assert!(ps_scan(&mut ctx, &mut results, &resolution));
    assert_eq!(results.guobject_array, 0x11);
    assert_eq!(results.gmalloc, 0x44);
    assert_eq!(results.engine_version, PsEngineVersion { major: 4, minor: 27 });
    assert_eq!(results.console_manager_singleton, 0x99);
    assert_eq!(ctx.warning.count(), 0);
    assert_eq!(ctx.default.count(), 10);
}

#[test]
fn optional_failures_do_not_fail_the_call() {
    // The four optional slots fail; every mandatory slot succeeds.
    let mut resolution = all_ok_resolution();
    resolution.ftext_fstring = Err(String::from("no ftext"));
    resolution.fuobject_hash_tables_get = Err(String::from("no tables"));
    resolution.gnatives = Err(String::from("no gnatives"));
    resolution.console_manager_singleton = Err(String::from("no console"));
    let mut ctx = PsCtx::new(all_requested());
    let mut results = zero_results();
    assert!(ps_scan(&mut ctx, &mut results, &resolution));
    assert_eq!(results.ftext_fstring, 0);
    assert_eq!(results.fuobject_hash_tables_get, 0);
    assert_eq!(results.gnatives, 0);
    assert_eq!(results.console_manager_singleton, 0);
    assert_eq!(results.guobject_array, 0x11);
    // Each optional failure logged two warnings; no closing failure line.
    assert_eq!(ctx.warning.count(), 8);
}

#[test]
fn mandatory_failure_fails_the_call_and_logs() {
    let mut resolution = all_ok_resolution();
    resolution.guobject_array = Err(String::from("missing"));
    let mut ctx = PsCtx::new(all_requested());
    let mut results = zero_results();
    assert!(!ps_scan(&mut ctx, &mut results, &resolution));
    assert_eq!(results.guobject_array, 0);
    let w = transcript(&ctx.warning);
    assert_eq!(w.len(), 3);
    assert_eq!(w[0], wide("Failed to find GUObjectArray: missing"));
    assert_eq!(
        w[1],
        wide("You can supply your own AOB in 'UE4SS_Signatures/GUObjectArray.lua'")
    );
    assert_eq!(w[2], wide("Scan failed\n"));
}

#[test]
fn engine_version_failure_is_mandatory_and_hints_settings() {
    let mut resolution = all_ok_resolution();
    resolution.engine_version = Err(String::from("too old"));
    let mut ctx = PsCtx::new(all_requested());
    let mut results = zero_results();
    results.engine_version = PsEngineVersion { major: 9, minor: 9 };
    match ps_scan_internal(&mut ctx, &mut results, &resolution) {
        Ok(()) => panic!("a mandatory failure must fail the call"),
        Err(errs) => {
            assert_eq!(errs.0, vec![String::from("too old")]);
        }
    }
    assert_eq!(results.engine_version, PsEngineVersion { major: 0, minor: 0 });
    let w = transcript(&ctx.warning);
    assert_eq!(w[0], wide("Failed to find EngineVersion: too old"));
    assert_eq!(
        w[1],
        wide("You need to override the engine version in 'UE4SS-settings.ini'.")
    );
}

#[test]
fn unrequested_slots_are_untouched_and_unlogged() {
    let mut config = all_requested();
    config.gmalloc = false;
    config.engine_version = false;
    let mut ctx = PsCtx::new(config);
    let mut results = zero_results();
    results.gmalloc = 777;
    results.engine_version = PsEngineVersion { major: 5, minor: 1 };
    let resolution = all_ok_resolution();
    assert!(ps_scan(&mut ctx, &mut results, &resolution));
    assert_eq!(results.gmalloc, 777);
    assert_eq!(results.engine_version, PsEngineVersion { major: 5, minor: 1 });
    assert_eq!(ctx.default.count(), 8);
}

#[test]
fn mandatory_failures_are_collected_in_evaluation_order() {
    let mut resolution = all_ok_resolution();
    resolution.engine_version = Err(String::from("v"));
    resolution.gmalloc = Err(String::from("g"));
    resolution.static_construct_object_internal = Err(String::from("s"));
    resolution.gnatives = Err(String::from("optional, not collected"));
    let mut ctx = PsCtx::new(all_requested());
    let mut results = zero_results();
    match ps_scan_internal(&mut ctx, &mut results, &resolution) {
        Ok(()) => panic!("mandatory failures must fail the call"),
        Err(errs) => {
            assert_eq!(
                errs.0,
                vec![String::from("v"), String::from("g"), String::from("s")]
            );
        }
    }
}

#[test]
fn found_message_is_logged_in_wide_form() {
    let mut config = all_requested();
    config.fname_tostring = false;
    config.fname_ctor_wchar = false;
    config.gmalloc = false;
    config.static_construct_object_internal = false;
    config.ftext_fstring = false;
    config.engine_version = false;
    config.fuobject_hash_tables_get = false;
    config.gnatives = false;
    config.console_manager_singleton = false;
    let mut ctx = PsCtx::new(config);
    let mut results = zero_results();
    let mut resolution = all_ok_resolution();
    resolution.guobject_array = Ok(0x2a);
    assert!(ps_scan(&mut ctx, &mut results, &resolution));
    let d = transcript(&ctx.default);
    assert_eq!(d, vec![wide("Found GUObjectArray: 0x2a")]);
}

#[test]
fn version_message_prints_major_dot_minor() {
    let mut config = all_requested();
    config.guobject_array = false;
    config.fname_tostring = false;
    config.fname_ctor_wchar = false;
    config.gmalloc = false;
    config.static_construct_object_internal = false;
    config.ftext_fstring = false;
    config.fuobject_hash_tables_get = false;
    config.gnatives = false;
    config.console_manager_singleton = false;
    let mut ctx = PsCtx::new(config);
    let mut results = zero_results();
    let resolution = all_ok_resolution();
    assert!(ps_scan(&mut ctx, &mut results, &resolution));
    let d = transcript(&ctx.default);
    assert_eq!(d, vec![wide("Found EngineVersion: 4.27")]);
}

#[test]
fn log_level_records_wide_messages() {
    let mut level = LogLevel::new();
    level.log("Hi");
    level.log("");
    assert_eq!(level.count(), 2);
    assert_eq!(level.message(0), &vec![72u16, 105, 0]);
    assert_eq!(level.message(1), &vec![0u16]);
}

#[test]
fn message_builders_format_exactly() {
    assert_eq!(build_found_message("GMalloc", 255), "Found GMalloc: 0xff");
    assert_eq!(build_found_message("X", 0), "Found X: 0x0");
    assert_eq!(
        build_failed_message("GNatives", "not found"),
        "Failed to find GNatives: not found"
    );
    assert_eq!(
        build_aob_hint_message("GMalloc.lua"),
        "You can supply your own AOB in 'UE4SS_Signatures/GMalloc.lua'"
    );
    assert_eq!(build_found_message("Addr", 0xdeadbeef), "Found Addr: 0xdeadbeef");
}

#[test]
fn string_equality_compares_contents() {
    assert!(str_eq("GMalloc", "GMalloc"));
    assert!(!str_eq("GMalloc", "GMalloC"));
    assert!(!str_eq("GMalloc", "GMalloc2"));
    assert!(str_eq("", ""));
}

#[test]
fn exists_iff_listed() {
    let reg = Registry::new(vec![
        String::from("GUObjectArray"),
        String::from("GMalloc"),
        String::from("EngineVersion"),
    ]);
    let listed = reg.list_names().clone();
    for name in &listed {
        assert!(reg.ps_resolver_exists(name.as_str()));
    }
    assert!(!reg.ps_resolver_exists("ConsoleManagerSingleton"));
    assert_eq!(reg.count(), 3);
    assert_eq!(listed[1], "GMalloc");
}

#[test]
fn find_reports_first_match() {
    let reg = Registry::new(vec![
        String::from("A"),
        String::from("B"),
        String::from("A"),
    ]);
    assert_eq!(reg.find("A"), Some(0));
    assert_eq!(reg.find("B"), Some(1));
    assert_eq!(reg.find("C"), None);
}

#[test]
fn single_resolution_of_unknown_name_is_zero_without_scan() {
    let reg = Registry::new(vec![String::from("GMalloc")]);
    // The lookup refuses the name before any engine work happens.
    assert!(reg.find("NotARealResolver").is_none());
    assert_eq!(ps_resolve_single_finish(None), 0);
    assert_eq!(ps_resolve_single_finish(Some(0xABCD)), 0xABCD);
}

#[test]
fn single_resolution_is_idempotent_for_one_outcome() {
    let reg = Registry::new(vec![String::from("GMalloc"), String::from("GNatives")]);
    let first = reg.find("GNatives");
    let second = reg.find("GNatives");
    assert_eq!(first, second);
    let outcome = Some(0x4242u64);
    assert_eq!(
        ps_resolve_single_finish(outcome),
        ps_resolve_single_finish(outcome)
    );
}

#[test]
fn batch_mixes_unknown_failing_and_succeeding_names() {
    let reg = Registry::new(vec![String::from("Known1"), String::from("Known2")]);
    let names = vec![
        String::from("Unknown"),
        String::from("Known1"),
        String::from("Known2"),
    ];
    let plan = ps_resolve_batch_plan(&reg, &names);
    assert_eq!(plan, vec![1, 2]);
    // The engine fails the first planned resolver and resolves the second.
    let outcomes = vec![None, Some(0xBEEF)];
    let mut results = vec![9u64, 9, 9];
    let count = ps_resolve_batch_fill(3, &plan, &outcomes, &mut results);
    assert_eq!(count, 3);
    assert_eq!(results, vec![0, 0, 0xBEEF]);
}

#[test]
fn batch_fills_every_slot_in_input_order() {
    let reg = Registry::new(vec![
        String::from("A"),
        String::from("B"),
        String::from("C"),
    ]);
    let names = vec![
        String::from("C"),
        String::from("Missing"),
        String::from("A"),
        String::from("B"),
    ];
    let plan = ps_resolve_batch_plan(&reg, &names);
    assert_eq!(plan, vec![0, 2, 3]);
    let outcomes = vec![Some(3u64), Some(1), Some(2)];
    let mut results = vec![7u64; 4];
    let count = ps_resolve_batch_fill(4, &plan, &outcomes, &mut results);
    assert_eq!(count, 4);
    assert_eq!(results, vec![3, 0, 1, 2]);
}

#[test]
fn batch_single_call_matches_the_two_phase_protocol() {
    let reg = Registry::new(vec![String::from("GMalloc"), String::from("GNatives")]);
    let names = vec![
        String::from("GNatives"),
        String::from("Nope"),
        String::from("GMalloc"),
    ];
    let plan = ps_resolve_batch_plan(&reg, &names);
    assert_eq!(plan, vec![0, 2]);
    let outcomes = vec![Some(0x10u64), None];
    let mut combined = vec![1u64; 3];
    let count = ps_resolve_batch(&reg, &names, &outcomes, &mut combined);
    assert_eq!(count, 3);
    assert_eq!(combined, vec![0x10, 0, 0]);
    let mut two_phase = vec![1u64; 3];
    ps_resolve_batch_fill(3, &plan, &outcomes, &mut two_phase);
    assert_eq!(combined, two_phase);
}
