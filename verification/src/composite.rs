//! Composite resolution: ten named slots evaluated together in one scan
//! pass, each independently succeeding or failing, with a fixed
//! optionality policy deciding which failures count against the overall
//! call.
//!
//! The per-slot scan work itself is the resolver collaborator's; it hands
//! its ten outcomes in as a [`CompositeResolution`].  This module owns
//! the caller-visible policy: gating by the requested-slot flags, the
//! zero sentinel on failure, the warning/diagnostic transcript, and the
//! mandatory-only failure aggregation.

use vstd::prelude::*;
use crate::seqs::lemma_add_assoc;
use crate::log::{
    LogLevel, concat2, dec_chars, dec_string, failed_message, found_message, aob_hint_message,
    build_aob_hint_message, build_failed_message, build_found_message, wide_message,
};

verus! {

/// An address slot's contribution to the default transcript: its
/// success message, when requested and resolved.
pub open spec fn slot_found_logs(
    requested: bool,
    outcome: Result<u64, String>,
    name: Seq<char>,
) -> Seq<Seq<u16>> {
    if requested && outcome is Ok {
        seq![wide_message(found_message(name, outcome->Ok_0))]
    } else {
        Seq::empty()
    }
}

/// An address slot's contribution to the warning transcript: the
/// failure and the override hint, when requested and unresolved.
pub open spec fn slot_warning_logs(
    requested: bool,
    outcome: Result<u64, String>,
    name: Seq<char>,
    lua: Seq<char>,
) -> Seq<Seq<u16>> {
    if requested && outcome is Err {
        seq![
            wide_message(failed_message(name, outcome->Err_0@)),
            wide_message(aob_hint_message(lua)),
        ]
    } else {
        Seq::empty()
    }
}

/// A resolved engine version: major/minor pair.
#[derive(Clone, Copy, PartialEq, Eq, Structural, Debug)]
pub struct PsEngineVersion {
    pub major: u16,
    pub minor: u16,
}

/// Which of the ten composite slots the caller asks to have reported.
#[derive(Clone, Copy, PartialEq, Eq, Structural, Debug)]
pub struct PsScanConfig {
    pub guobject_array: bool,
    pub fname_tostring: bool,
    pub fname_ctor_wchar: bool,
    pub gmalloc: bool,
    pub static_construct_object_internal: bool,
    pub ftext_fstring: bool,
    pub engine_version: bool,
    pub fuobject_hash_tables_get: bool,
    pub gnatives: bool,
    pub console_manager_singleton: bool,
}

/// The caller-visible output of one composite resolution: one address
/// per slot (zero where a requested slot failed), and the engine
/// version.
pub struct PsScanResults {
    pub guobject_array: u64,
    pub fname_tostring: u64,
    pub fname_ctor_wchar: u64,
    pub gmalloc: u64,
    pub static_construct_object_internal: u64,
    pub ftext_fstring: u64,
    pub engine_version: PsEngineVersion,
    pub fuobject_hash_tables_get: u64,
    pub gnatives: u64,
    pub console_manager_singleton: u64,
}

/// The ten per-slot outcomes of one pass of the resolver collaborator:
/// nine address slots and the version slot, each either a value or a
/// descriptive failure.
pub struct CompositeResolution {
    pub guobject_array: Result<u64, String>,
    pub fname_tostring: Result<u64, String>,
    pub fname_ctor_wchar: Result<u64, String>,
    pub gmalloc: Result<u64, String>,
    pub static_construct_object_internal: Result<u64, String>,
    pub ftext_fstring: Result<u64, String>,
    pub engine_version: Result<PsEngineVersion, String>,
    pub fuobject_hash_tables_get: Result<u64, String>,
    pub gnatives: Result<u64, String>,
    pub console_manager_singleton: Result<u64, String>,
}

/// The failures of the requested mandatory slots, gathered during one
/// composite call, in evaluation order.
pub struct ScanErrors(pub Vec<String>);

/// The scan context: the five logging sinks and the slot configuration.
pub struct PsCtx {
    pub default: LogLevel,
    pub normal: LogLevel,
    pub verbose: LogLevel,
    pub warning: LogLevel,
    pub error: LogLevel,
    pub config: PsScanConfig,
}

impl PsCtx {
    /// A context with empty transcripts.
    pub fn new(config: PsScanConfig) -> (r: PsCtx)
        ensures
            r.config == config,
            r.default@ == Seq::<Seq<u16>>::empty(),
            r.normal@ == Seq::<Seq<u16>>::empty(),
            r.verbose@ == Seq::<Seq<u16>>::empty(),
            r.warning@ == Seq::<Seq<u16>>::empty(),
            r.error@ == Seq::<Seq<u16>>::empty(),
    {
        PsCtx {
            default: LogLevel::new(),
            normal: LogLevel::new(),
            verbose: LogLevel::new(),
            warning: LogLevel::new(),
            error: LogLevel::new(),
            config,
        }
    }
}

/// Value a requested address slot reports: the resolved address, or the
/// zero sentinel on failure; an unrequested slot keeps its prior value.
pub open spec fn slot_value(requested: bool, outcome: Result<u64, String>, prev: u64) -> u64 {
    if requested {
        match outcome {
            Ok(v) => v,
            Err(_) => 0,
        }
    } else {
        prev
    }
}

/// The error a slot contributes to the overall failure decision: only a
/// requested, mandatory, failing slot contributes.
pub open spec fn slot_errors(requested: bool, outcome: Result<u64, String>, optional: bool) -> Seq<
    Seq<char>,
> {
    if requested && !optional && outcome is Err {
        seq![outcome->Err_0@]
    } else {
        Seq::empty()
    }
}

/// The version slot's reported value: the resolved pair, zeros on
/// failure, the prior value when not requested.
pub open spec fn version_value(
    requested: bool,
    outcome: Result<PsEngineVersion, String>,
    prev: PsEngineVersion,
) -> PsEngineVersion {
    if requested {
        match outcome {
            Ok(v) => v,
            Err(_) => PsEngineVersion { major: 0, minor: 0 },
        }
    } else {
        prev
    }
}

/// The success message of the version slot.
pub open spec fn version_message(v: PsEngineVersion) -> Seq<char> {
    "Found EngineVersion: "@ + dec_chars(v.major as int) + "."@ + dec_chars(v.minor as int)
}

/// The version slot's contribution to the default transcript.
pub open spec fn version_found_logs(
    requested: bool,
    outcome: Result<PsEngineVersion, String>,
) -> Seq<Seq<u16>> {
    if requested && outcome is Ok {
        seq![wide_message(version_message(outcome->Ok_0))]
    } else {
        Seq::empty()
    }
}

/// The version slot's contribution to the warning transcript: the
/// failure and the settings-override hint.
pub open spec fn version_warning_logs(
    requested: bool,
    outcome: Result<PsEngineVersion, String>,
) -> Seq<Seq<u16>> {
    if requested && outcome is Err {
        seq![
            wide_message(failed_message("EngineVersion"@, outcome->Err_0@)),
            wide_message("You need to override the engine version in 'UE4SS-settings.ini'."@),
        ]
    } else {
        Seq::empty()
    }
}

/// The version slot's contribution to the failure decision (it is
/// mandatory).
pub open spec fn version_errors(
    requested: bool,
    outcome: Result<PsEngineVersion, String>,
) -> Seq<Seq<char>> {
    if requested && outcome is Err {
        seq![outcome->Err_0@]
    } else {
        Seq::empty()
    }
}

/// Success messages of a whole composite call, in evaluation order.
pub open spec fn composite_found_logs(cfg: PsScanConfig, res: CompositeResolution) -> Seq<
    Seq<u16>,
> {
    version_found_logs(cfg.engine_version, res.engine_version) + slot_found_logs(
        cfg.guobject_array,
        res.guobject_array,
        "GUObjectArray"@,
    ) + slot_found_logs(cfg.gmalloc, res.gmalloc, "GMalloc"@) + slot_found_logs(
        cfg.fname_tostring,
        res.fname_tostring,
        "FName::ToString"@,
    ) + slot_found_logs(cfg.fname_ctor_wchar, res.fname_ctor_wchar, "FName::FName(wchar_t*)"@)
        + slot_found_logs(
        cfg.static_construct_object_internal,
        res.static_construct_object_internal,
        "StaticConstructObject_Internal"@,
    ) + slot_found_logs(cfg.ftext_fstring, res.ftext_fstring, "FText::FText(FString&&)"@)
        + slot_found_logs(
        cfg.fuobject_hash_tables_get,
        res.fuobject_hash_tables_get,
        "FUObjectHashTables::Get()"@,
    ) + slot_found_logs(cfg.gnatives, res.gnatives, "GNatives"@) + slot_found_logs(
        cfg.console_manager_singleton,
        res.console_manager_singleton,
        "ConsoleManagerSingleton"@,
    )
}

/// Warning messages of a whole composite call, in evaluation order.
pub open spec fn composite_warning_logs(cfg: PsScanConfig, res: CompositeResolution) -> Seq<
    Seq<u16>,
> {
    version_warning_logs(cfg.engine_version, res.engine_version) + slot_warning_logs(
        cfg.guobject_array,
        res.guobject_array,
        "GUObjectArray"@,
        "GUObjectArray.lua"@,
    ) + slot_warning_logs(cfg.gmalloc, res.gmalloc, "GMalloc"@, "GMalloc.lua"@)
        + slot_warning_logs(
        cfg.fname_tostring,
        res.fname_tostring,
        "FName::ToString"@,
        "FName_ToString.lua"@,
    ) + slot_warning_logs(
        cfg.fname_ctor_wchar,
        res.fname_ctor_wchar,
        "FName::FName(wchar_t*)"@,
        "FName_Constructor.lua"@,
    ) + slot_warning_logs(
        cfg.static_construct_object_internal,
        res.static_construct_object_internal,
        "StaticConstructObject_Internal"@,
        "StaticConstructObject.lua"@,
    ) + slot_warning_logs(
        cfg.ftext_fstring,
        res.ftext_fstring,
        "FText::FText(FString&&)"@,
        "FText_Constructor.lua"@,
    ) + slot_warning_logs(
        cfg.fuobject_hash_tables_get,
        res.fuobject_hash_tables_get,
        "FUObjectHashTables::Get()"@,
        "GUObjectHashTables.lua"@,
    ) + slot_warning_logs(cfg.gnatives, res.gnatives, "GNatives"@, "GNatives.lua"@)
        + slot_warning_logs(
        cfg.console_manager_singleton,
        res.console_manager_singleton,
        "ConsoleManagerSingleton"@,
        "ConsoleManager.lua"@,
    )
}

/// The failures that count against the overall call: requested mandatory
/// slots only, in evaluation order.  The version slot and five address
/// slots are mandatory; the text-construction routine, hash-table
/// accessor, native-function table and console-manager singleton are
/// optional.
pub open spec fn composite_errors(cfg: PsScanConfig, res: CompositeResolution) -> Seq<Seq<char>> {
    version_errors(cfg.engine_version, res.engine_version) + slot_errors(
        cfg.guobject_array,
        res.guobject_array,
        false,
    ) + slot_errors(cfg.gmalloc, res.gmalloc, false) + slot_errors(
        cfg.fname_tostring,
        res.fname_tostring,
        false,
    ) + slot_errors(cfg.fname_ctor_wchar, res.fname_ctor_wchar, false) + slot_errors(
        cfg.static_construct_object_internal,
        res.static_construct_object_internal,
        false,
    ) + slot_errors(cfg.ftext_fstring, res.ftext_fstring, true) + slot_errors(
        cfg.fuobject_hash_tables_get,
        res.fuobject_hash_tables_get,
        true,
    ) + slot_errors(cfg.gnatives, res.gnatives, true) + slot_errors(
        cfg.console_manager_singleton,
        res.console_manager_singleton,
        true,
    )
}

/// The optional slots never count toward overall failure: the
/// collected errors — and with them the call's success — depend only
/// on the six mandatory slots' outcomes.
pub proof fn lemma_optional_failures_excluded(
    cfg: PsScanConfig,
    r1: CompositeResolution,
    r2: CompositeResolution,
)
    requires
        r1.engine_version == r2.engine_version,
        r1.guobject_array == r2.guobject_array,
        r1.gmalloc == r2.gmalloc,
        r1.fname_tostring == r2.fname_tostring,
        r1.fname_ctor_wchar == r2.fname_ctor_wchar,
        r1.static_construct_object_internal == r2.static_construct_object_internal,
    ensures
        composite_errors(cfg, r1) == composite_errors(cfg, r2),
{
    assert(slot_errors(cfg.ftext_fstring, r1.ftext_fstring, true) =~= slot_errors(
        cfg.ftext_fstring,
        r2.ftext_fstring,
        true,
    ));
    assert(slot_errors(cfg.fuobject_hash_tables_get, r1.fuobject_hash_tables_get, true)
        =~= slot_errors(cfg.fuobject_hash_tables_get, r2.fuobject_hash_tables_get, true));
    assert(slot_errors(cfg.gnatives, r1.gnatives, true) =~= slot_errors(
        cfg.gnatives,
        r2.gnatives,
        true,
    ));
    assert(slot_errors(cfg.console_manager_singleton, r1.console_manager_singleton, true)
        =~= slot_errors(cfg.console_manager_singleton, r2.console_manager_singleton, true));
}

/// Handles one address slot: reports the value or the zero sentinel,
/// logs the outcome, and collects the error when the slot is mandatory.
fn handle_address_slot(
    ctx: &mut PsCtx,
    outcome: &Result<u64, String>,
    name: &str,
    lua: &str,
    requested: bool,
    optional: bool,
    out_field: &mut u64,
    errors: &mut Vec<String>,
)
    ensures
        final(ctx).config == old(ctx).config,
        final(ctx).normal == old(ctx).normal,
        final(ctx).verbose == old(ctx).verbose,
        final(ctx).error == old(ctx).error,
        final(ctx).default@ == old(ctx).default@ + slot_found_logs(requested, *outcome, name@),
        final(ctx).warning@ == old(ctx).warning@ + slot_warning_logs(
            requested,
            *outcome,
            name@,
            lua@,
        ),
        *final(out_field) == slot_value(requested, *outcome, *old(out_field)),
        final(errors).deep_view() == old(errors).deep_view() + slot_errors(
            requested,
            *outcome,
            optional,
        ),
{
    if requested {
        match outcome {
            Ok(v) => {
                let msg = build_found_message(name, *v);
                ctx.default.log(msg.as_str());
                *out_field = *v;
                proof {
                    assert(ctx.default@ =~= old(ctx).default@ + slot_found_logs(
                        requested,
                        *outcome,
                        name@,
                    ));
                    assert(ctx.warning@ =~= old(ctx).warning@ + slot_warning_logs(
                        requested,
                        *outcome,
                        name@,
                        lua@,
                    ));
                    assert(errors.deep_view() =~= old(errors).deep_view() + slot_errors(
                        requested,
                        *outcome,
                        optional,
                    ));
                }
            },
            Err(e) => {
                let m1 = build_failed_message(name, e.as_str());
                ctx.warning.log(m1.as_str());
                let m2 = build_aob_hint_message(lua);
                ctx.warning.log(m2.as_str());
                *out_field = 0;
                if !optional {
                    errors.push(e.clone());
                    proof {
                        assert(errors.deep_view() =~~= old(errors).deep_view() + slot_errors(
                            requested,
                            *outcome,
                            optional,
                        ));
                    }
                } else {
                    proof {
                        assert(errors.deep_view() =~= old(errors).deep_view() + slot_errors(
                            requested,
                            *outcome,
                            optional,
                        ));
                    }
                }
                proof {
                    assert(ctx.default@ =~= old(ctx).default@ + slot_found_logs(
                        requested,
                        *outcome,
                        name@,
                    ));
                    assert(ctx.warning@ =~= old(ctx).warning@ + slot_warning_logs(
                        requested,
                        *outcome,
                        name@,
                        lua@,
                    ));
                }
            },
        }
    } else {
        proof {
            assert(ctx.default@ =~= old(ctx).default@ + slot_found_logs(
                requested,
                *outcome,
                name@,
            ));
            assert(ctx.warning@ =~= old(ctx).warning@ + slot_warning_logs(
                requested,
                *outcome,
                name@,
                lua@,
            ));
            assert(errors.deep_view() =~= old(errors).deep_view() + slot_errors(
                requested,
                *outcome,
                optional,
            ));
        }
    }
}

/// Builds the version slot's success message.
fn build_version_message(v: PsEngineVersion) -> (r: String)
    ensures
        r@ == version_message(v),
{
    let major = dec_string(v.major);
    let minor = dec_string(v.minor);
    let a = concat2("Found EngineVersion: ", major.as_str());
    let b = concat2(a.as_str(), ".");
    let c = concat2(b.as_str(), minor.as_str());
    proof {
        assert(c@ =~= version_message(v));
    }
    c
}

/// Handles the version slot: reports the pair or zeros, logs the
/// outcome with its settings-override hint, and collects the error (the
/// slot is mandatory).
fn handle_version_slot(
    ctx: &mut PsCtx,
    outcome: &Result<PsEngineVersion, String>,
    requested: bool,
    out_field: &mut PsEngineVersion,
    errors: &mut Vec<String>,
)
    ensures
        final(ctx).config == old(ctx).config,
        final(ctx).normal == old(ctx).normal,
        final(ctx).verbose == old(ctx).verbose,
        final(ctx).error == old(ctx).error,
        final(ctx).default@ == old(ctx).default@ + version_found_logs(requested, *outcome),
        final(ctx).warning@ == old(ctx).warning@ + version_warning_logs(requested, *outcome),
        *final(out_field) == version_value(requested, *outcome, *old(out_field)),
        final(errors).deep_view() == old(errors).deep_view() + version_errors(requested, *outcome),
{
    if requested {
        match outcome {
            Ok(v) => {
                let msg = build_version_message(*v);
                ctx.default.log(msg.as_str());
                *out_field = *v;
                proof {
                    assert(ctx.default@ =~= old(ctx).default@ + version_found_logs(
                        requested,
                        *outcome,
                    ));
                    assert(ctx.warning@ =~= old(ctx).warning@ + version_warning_logs(
                        requested,
                        *outcome,
                    ));
                    assert(errors.deep_view() =~= old(errors).deep_view() + version_errors(
                        requested,
                        *outcome,
                    ));
                }
            },
            Err(e) => {
                let m1 = build_failed_message("EngineVersion", e.as_str());
                ctx.warning.log(m1.as_str());
                ctx.warning.log(
                    "You need to override the engine version in 'UE4SS-settings.ini'.",
                );
                *out_field = PsEngineVersion { major: 0, minor: 0 };
                errors.push(e.clone());
                proof {
                    assert(ctx.default@ =~= old(ctx).default@ + version_found_logs(
                        requested,
                        *outcome,
                    ));
                    assert(ctx.warning@ =~= old(ctx).warning@ + version_warning_logs(
                        requested,
                        *outcome,
                    ));
                    assert(errors.deep_view() =~~= old(errors).deep_view() + version_errors(
                        requested,
                        *outcome,
                    ));
                }
            },
        }
    } else {
        proof {
            assert(ctx.default@ =~= old(ctx).default@ + version_found_logs(requested, *outcome));
            assert(ctx.warning@ =~= old(ctx).warning@ + version_warning_logs(
                requested,
                *outcome,
            ));
            assert(errors.deep_view() =~= old(errors).deep_view() + version_errors(
                requested,
                *outcome,
            ));
        }
    }
}

/// Evaluates the composite: reports every requested slot into
/// `results`, logs each outcome, and fails overall exactly when a
/// requested mandatory slot failed, returning those failures.
#[verifier::rlimit(100)]
pub fn ps_scan_internal(
    ctx: &mut PsCtx,
    results: &mut PsScanResults,
    resolution: &CompositeResolution,
) -> (r: Result<(), ScanErrors>)
    ensures
        final(ctx).config == old(ctx).config,
        final(ctx).normal == old(ctx).normal,
        final(ctx).verbose == old(ctx).verbose,
        final(ctx).error == old(ctx).error,
        final(ctx).default@ == old(ctx).default@ + composite_found_logs(
            old(ctx).config,
            *resolution,
        ),
        final(ctx).warning@ == old(ctx).warning@ + composite_warning_logs(
            old(ctx).config,
            *resolution,
        ),
        final(results).engine_version == version_value(
            old(ctx).config.engine_version,
            resolution.engine_version,
            old(results).engine_version,
        ),
        final(results).guobject_array == slot_value(
            old(ctx).config.guobject_array,
            resolution.guobject_array,
            old(results).guobject_array,
        ),
        final(results).gmalloc == slot_value(
            old(ctx).config.gmalloc,
            resolution.gmalloc,
            old(results).gmalloc,
        ),
        final(results).fname_tostring == slot_value(
            old(ctx).config.fname_tostring,
            resolution.fname_tostring,
            old(results).fname_tostring,
        ),
        final(results).fname_ctor_wchar == slot_value(
            old(ctx).config.fname_ctor_wchar,
            resolution.fname_ctor_wchar,
            old(results).fname_ctor_wchar,
        ),
        final(results).static_construct_object_internal == slot_value(
            old(ctx).config.static_construct_object_internal,
            resolution.static_construct_object_internal,
            old(results).static_construct_object_internal,
        ),
        final(results).ftext_fstring == slot_value(
            old(ctx).config.ftext_fstring,
            resolution.ftext_fstring,
            old(results).ftext_fstring,
        ),
        final(results).fuobject_hash_tables_get == slot_value(
            old(ctx).config.fuobject_hash_tables_get,
            resolution.fuobject_hash_tables_get,
            old(results).fuobject_hash_tables_get,
        ),
        final(results).gnatives == slot_value(
            old(ctx).config.gnatives,
            resolution.gnatives,
            old(results).gnatives,
        ),
        final(results).console_manager_singleton == slot_value(
            old(ctx).config.console_manager_singleton,
            resolution.console_manager_singleton,
            old(results).console_manager_singleton,
        ),
        r is Ok <==> composite_errors(old(ctx).config, *resolution).len() == 0,
        r is Err ==> r->Err_0.0.deep_view() == composite_errors(old(ctx).config, *resolution),
{
    let mut errors: Vec<String> = Vec::new();
    proof {
        assert(errors.deep_view() =~= Seq::<Seq<char>>::empty());
    }
    let cfg = ctx.config;

    let ghost fv = version_found_logs(cfg.engine_version, resolution.engine_version);
    let ghost wv = version_warning_logs(cfg.engine_version, resolution.engine_version);
    let ghost ev = version_errors(cfg.engine_version, resolution.engine_version);
    let ghost f1 = slot_found_logs(cfg.guobject_array, resolution.guobject_array, "GUObjectArray"@);
    let ghost w1 = slot_warning_logs(
        cfg.guobject_array,
        resolution.guobject_array,
        "GUObjectArray"@,
        "GUObjectArray.lua"@,
    );
    let ghost e1 = slot_errors(cfg.guobject_array, resolution.guobject_array, false);
    let ghost f2 = slot_found_logs(cfg.gmalloc, resolution.gmalloc, "GMalloc"@);
    let ghost w2 = slot_warning_logs(cfg.gmalloc, resolution.gmalloc, "GMalloc"@, "GMalloc.lua"@);
    let ghost e2 = slot_errors(cfg.gmalloc, resolution.gmalloc, false);
    let ghost f3 = slot_found_logs(cfg.fname_tostring, resolution.fname_tostring, "FName::ToString"@);
    let ghost w3 = slot_warning_logs(
        cfg.fname_tostring,
        resolution.fname_tostring,
        "FName::ToString"@,
        "FName_ToString.lua"@,
    );
    let ghost e3 = slot_errors(cfg.fname_tostring, resolution.fname_tostring, false);
    let ghost f4 = slot_found_logs(
        cfg.fname_ctor_wchar,
        resolution.fname_ctor_wchar,
        "FName::FName(wchar_t*)"@,
    );
    let ghost w4 = slot_warning_logs(
        cfg.fname_ctor_wchar,
        resolution.fname_ctor_wchar,
        "FName::FName(wchar_t*)"@,
        "FName_Constructor.lua"@,
    );
    let ghost e4 = slot_errors(cfg.fname_ctor_wchar, resolution.fname_ctor_wchar, false);
    let ghost f5 = slot_found_logs(
        cfg.static_construct_object_internal,
        resolution.static_construct_object_internal,
        "StaticConstructObject_Internal"@,
    );
    let ghost w5 = slot_warning_logs(
        cfg.static_construct_object_internal,
        resolution.static_construct_object_internal,
        "StaticConstructObject_Internal"@,
        "StaticConstructObject.lua"@,
    );
    let ghost e5 = slot_errors(
        cfg.static_construct_object_internal,
        resolution.static_construct_object_internal,
        false,
    );
    let ghost f6 = slot_found_logs(
        cfg.ftext_fstring,
        resolution.ftext_fstring,
        "FText::FText(FString&&)"@,
    );
    let ghost w6 = slot_warning_logs(
        cfg.ftext_fstring,
        resolution.ftext_fstring,
        "FText::FText(FString&&)"@,
        "FText_Constructor.lua"@,
    );
    let ghost e6 = slot_errors(cfg.ftext_fstring, resolution.ftext_fstring, true);
    let ghost f7 = slot_found_logs(
        cfg.fuobject_hash_tables_get,
        resolution.fuobject_hash_tables_get,
        "FUObjectHashTables::Get()"@,
    );
    let ghost w7 = slot_warning_logs(
        cfg.fuobject_hash_tables_get,
        resolution.fuobject_hash_tables_get,
        "FUObjectHashTables::Get()"@,
        "GUObjectHashTables.lua"@,
    );
    let ghost e7 = slot_errors(cfg.fuobject_hash_tables_get, resolution.fuobject_hash_tables_get, true);
    let ghost f8 = slot_found_logs(cfg.gnatives, resolution.gnatives, "GNatives"@);
    let ghost w8 = slot_warning_logs(cfg.gnatives, resolution.gnatives, "GNatives"@, "GNatives.lua"@);
    let ghost e8 = slot_errors(cfg.gnatives, resolution.gnatives, true);
    let ghost f9 = slot_found_logs(
        cfg.console_manager_singleton,
        resolution.console_manager_singleton,
        "ConsoleManagerSingleton"@,
    );
    let ghost w9 = slot_warning_logs(
        cfg.console_manager_singleton,
        resolution.console_manager_singleton,
        "ConsoleManagerSingleton"@,
        "ConsoleManager.lua"@,
    );
    let ghost e9 = slot_errors(cfg.console_manager_singleton, resolution.console_manager_singleton, true);

    handle_version_slot(
        ctx,
        &resolution.engine_version,
        cfg.engine_version,
        &mut results.engine_version,
        &mut errors,
    );
    proof {
        assert(errors.deep_view() =~= ev);
    }
    handle_address_slot(
        ctx,
        &resolution.guobject_array,
        "GUObjectArray",
        "GUObjectArray.lua",
        cfg.guobject_array,
        false,
        &mut results.guobject_array,
        &mut errors,
    );
    proof {
        lemma_add_assoc(old(ctx).default@, fv, f1);
        assert(ctx.default@ == old(ctx).default@ + (fv + f1));
        lemma_add_assoc(old(ctx).warning@, wv, w1);
        assert(ctx.warning@ == old(ctx).warning@ + (wv + w1));
        assert(errors.deep_view() == ev + e1);
    }
    handle_address_slot(
        ctx,
        &resolution.gmalloc,
        "GMalloc",
        "GMalloc.lua",
        cfg.gmalloc,
        false,
        &mut results.gmalloc,
        &mut errors,
    );
    proof {
        lemma_add_assoc(old(ctx).default@, fv + f1, f2);
        assert(ctx.default@ == old(ctx).default@ + (fv + f1 + f2));
        lemma_add_assoc(old(ctx).warning@, wv + w1, w2);
        assert(ctx.warning@ == old(ctx).warning@ + (wv + w1 + w2));
        assert(errors.deep_view() == ev + e1 + e2);
    }
    handle_address_slot(
        ctx,
        &resolution.fname_tostring,
        "FName::ToString",
        "FName_ToString.lua",
        cfg.fname_tostring,
        false,
        &mut results.fname_tostring,
        &mut errors,
    );
    proof {
        lemma_add_assoc(old(ctx).default@, fv + f1 + f2, f3);
        assert(ctx.default@ == old(ctx).default@ + (fv + f1 + f2 + f3));
        lemma_add_assoc(old(ctx).warning@, wv + w1 + w2, w3);
        assert(ctx.warning@ == old(ctx).warning@ + (wv + w1 + w2 + w3));
        assert(errors.deep_view() == ev + e1 + e2 + e3);
    }
    handle_address_slot(
        ctx,
        &resolution.fname_ctor_wchar,
        "FName::FName(wchar_t*)",
        "FName_Constructor.lua",
        cfg.fname_ctor_wchar,
        false,
        &mut results.fname_ctor_wchar,
        &mut errors,
    );
    proof {
        lemma_add_assoc(old(ctx).default@, fv + f1 + f2 + f3, f4);
        assert(ctx.default@ == old(ctx).default@ + (fv + f1 + f2 + f3 + f4));
        lemma_add_assoc(old(ctx).warning@, wv + w1 + w2 + w3, w4);
        assert(ctx.warning@ == old(ctx).warning@ + (wv + w1 + w2 + w3 + w4));
        assert(errors.deep_view() == ev + e1 + e2 + e3 + e4);
    }
    handle_address_slot(
        ctx,
        &resolution.static_construct_object_internal,
        "StaticConstructObject_Internal",
        "StaticConstructObject.lua",
        cfg.static_construct_object_internal,
        false,
        &mut results.static_construct_object_internal,
        &mut errors,
    );
    proof {
        lemma_add_assoc(old(ctx).default@, fv + f1 + f2 + f3 + f4, f5);
        assert(ctx.default@ == old(ctx).default@ + (fv + f1 + f2 + f3 + f4 + f5));
        lemma_add_assoc(old(ctx).warning@, wv + w1 + w2 + w3 + w4, w5);
        assert(ctx.warning@ == old(ctx).warning@ + (wv + w1 + w2 + w3 + w4 + w5));
        assert(errors.deep_view() == ev + e1 + e2 + e3 + e4 + e5);
    }
    handle_address_slot(
        ctx,
        &resolution.ftext_fstring,
        "FText::FText(FString&&)",
        "FText_Constructor.lua",
        cfg.ftext_fstring,
        true,
        &mut results.ftext_fstring,
        &mut errors,
    );
    proof {
        lemma_add_assoc(old(ctx).default@, fv + f1 + f2 + f3 + f4 + f5, f6);
        assert(ctx.default@ == old(ctx).default@ + (fv + f1 + f2 + f3 + f4 + f5 + f6));
        lemma_add_assoc(old(ctx).warning@, wv + w1 + w2 + w3 + w4 + w5, w6);
        assert(ctx.warning@ == old(ctx).warning@ + (wv + w1 + w2 + w3 + w4 + w5 + w6));
        assert(errors.deep_view() == ev + e1 + e2 + e3 + e4 + e5 + e6);
    }
    handle_address_slot(
        ctx,
        &resolution.fuobject_hash_tables_get,
        "FUObjectHashTables::Get()",
        "GUObjectHashTables.lua",
        cfg.fuobject_hash_tables_get,
        true,
        &mut results.fuobject_hash_tables_get,
        &mut errors,
    );
    proof {
        lemma_add_assoc(old(ctx).default@, fv + f1 + f2 + f3 + f4 + f5 + f6, f7);
        assert(ctx.default@ == old(ctx).default@ + (fv + f1 + f2 + f3 + f4 + f5 + f6 + f7));
        lemma_add_assoc(old(ctx).warning@, wv + w1 + w2 + w3 + w4 + w5 + w6, w7);
        assert(ctx.warning@ == old(ctx).warning@ + (wv + w1 + w2 + w3 + w4 + w5 + w6 + w7));
        assert(errors.deep_view() == ev + e1 + e2 + e3 + e4 + e5 + e6 + e7);
    }
    handle_address_slot(
        ctx,
        &resolution.gnatives,
        "GNatives",
        "GNatives.lua",
        cfg.gnatives,
        true,
        &mut results.gnatives,
        &mut errors,
    );
    proof {
        lemma_add_assoc(old(ctx).default@, fv + f1 + f2 + f3 + f4 + f5 + f6 + f7, f8);
        assert(ctx.default@ == old(ctx).default@ + (fv + f1 + f2 + f3 + f4 + f5 + f6 + f7 + f8));
        lemma_add_assoc(old(ctx).warning@, wv + w1 + w2 + w3 + w4 + w5 + w6 + w7, w8);
        assert(ctx.warning@ == old(ctx).warning@ + (wv + w1 + w2 + w3 + w4 + w5 + w6 + w7 + w8));
        assert(errors.deep_view() == ev + e1 + e2 + e3 + e4 + e5 + e6 + e7 + e8);
    }
    handle_address_slot(
        ctx,
        &resolution.console_manager_singleton,
        "ConsoleManagerSingleton",
        "ConsoleManager.lua",
        cfg.console_manager_singleton,
        true,
        &mut results.console_manager_singleton,
        &mut errors,
    );
    proof {
        lemma_add_assoc(old(ctx).default@, fv + f1 + f2 + f3 + f4 + f5 + f6 + f7 + f8, f9);
        assert(ctx.default@ == old(ctx).default@ + (fv + f1 + f2 + f3 + f4 + f5 + f6 + f7 + f8 + f9));
        lemma_add_assoc(old(ctx).warning@, wv + w1 + w2 + w3 + w4 + w5 + w6 + w7 + w8, w9);
        assert(ctx.warning@ == old(ctx).warning@ + (wv + w1 + w2 + w3 + w4 + w5 + w6 + w7 + w8 + w9));
        assert(errors.deep_view() == ev + e1 + e2 + e3 + e4 + e5 + e6 + e7 + e8 + e9);
        assert(composite_found_logs(old(ctx).config, *resolution) == fv + f1 + f2 + f3 + f4 + f5
            + f6 + f7 + f8 + f9);
        assert(composite_warning_logs(old(ctx).config, *resolution) == wv + w1 + w2 + w3 + w4 + w5
            + w6 + w7 + w8 + w9);
        assert(composite_errors(old(ctx).config, *resolution) == ev + e1 + e2 + e3 + e4 + e5 + e6
            + e7 + e8 + e9);
    }

    if errors.is_empty() {
        Ok(())
    } else {
        Err(ScanErrors(errors))
    }
}

/// Runs the composite and reports overall success: false exactly when a
/// requested mandatory slot failed, in which case a closing warning is
/// logged.
pub fn ps_scan(
    ctx: &mut PsCtx,
    results: &mut PsScanResults,
    resolution: &CompositeResolution,
) -> (ok: bool)
    ensures
        ok <==> composite_errors(old(ctx).config, *resolution).len() == 0,
        final(ctx).config == old(ctx).config,
        final(ctx).normal == old(ctx).normal,
        final(ctx).verbose == old(ctx).verbose,
        final(ctx).error == old(ctx).error,
        final(ctx).default@ == old(ctx).default@ + composite_found_logs(
            old(ctx).config,
            *resolution,
        ),
        final(ctx).warning@ == old(ctx).warning@ + composite_warning_logs(
            old(ctx).config,
            *resolution,
        ) + (if ok {
            Seq::<Seq<u16>>::empty()
        } else {
            seq![wide_message("Scan failed\n"@)]
        }),
        final(results).engine_version == version_value(
            old(ctx).config.engine_version,
            resolution.engine_version,
            old(results).engine_version,
        ),
        final(results).guobject_array == slot_value(
            old(ctx).config.guobject_array,
            resolution.guobject_array,
            old(results).guobject_array,
        ),
        final(results).gmalloc == slot_value(
            old(ctx).config.gmalloc,
            resolution.gmalloc,
            old(results).gmalloc,
        ),
        final(results).fname_tostring == slot_value(
            old(ctx).config.fname_tostring,
            resolution.fname_tostring,
            old(results).fname_tostring,
        ),
        final(results).fname_ctor_wchar == slot_value(
            old(ctx).config.fname_ctor_wchar,
            resolution.fname_ctor_wchar,
            old(results).fname_ctor_wchar,
        ),
        final(results).static_construct_object_internal == slot_value(
            old(ctx).config.static_construct_object_internal,
            resolution.static_construct_object_internal,
            old(results).static_construct_object_internal,
        ),
        final(results).ftext_fstring == slot_value(
            old(ctx).config.ftext_fstring,
            resolution.ftext_fstring,
            old(results).ftext_fstring,
        ),
        final(results).fuobject_hash_tables_get == slot_value(
            old(ctx).config.fuobject_hash_tables_get,
            resolution.fuobject_hash_tables_get,
            old(results).fuobject_hash_tables_get,
        ),
        final(results).gnatives == slot_value(
            old(ctx).config.gnatives,
            resolution.gnatives,
            old(results).gnatives,
        ),
        final(results).console_manager_singleton == slot_value(
            old(ctx).config.console_manager_singleton,
            resolution.console_manager_singleton,
            old(results).console_manager_singleton,
        ),
{
    match ps_scan_internal(ctx, results, resolution) {
        Ok(()) => {
            proof {
                assert(ctx.warning@ =~= old(ctx).warning@ + composite_warning_logs(
                    old(ctx).config,
                    *resolution,
                ) + Seq::<Seq<u16>>::empty());
            }
            true
        },
        Err(_errs) => {
            ctx.warning.log("Scan failed\n");
            proof {
                assert(ctx.warning@ =~= old(ctx).warning@ + composite_warning_logs(
                    old(ctx).config,
                    *resolution,
                ) + seq![wide_message("Scan failed\n"@)]);
            }
            false
        },
    }
}

} // verus!
