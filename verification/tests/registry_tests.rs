//! The candidate registry: record shapes, engine attributions, and the
//! calendar-date validation.

use aibench::common::AICodeGenStatus;
use aibench::common::Date;
use aibench::module_baseline;
use aibench::module_claude;
use aibench::module_copilot;
use aibench::module_deepseek;
use aibench::module_gemini;
use aibench::module_grok;
use aibench::module_openai;
use aibench::module_synthaai;
use aibench::module_watson;
use aibench::module1;
use aibench::module3;

#[test]
fn baseline_registry_records() {
    let c = module_baseline::get_candidates();
    assert_eq!(c.engine_name.as_str(), "Baseline");
    assert_eq!(c.function_names.len(), 1);
    assert_eq!(c.function_names[0].as_str(), "levenshstein distance");
    assert_eq!(c.dates.len(), 1);
    assert_eq!(c.status.len(), 1);
    assert_eq!(c.functions.len(), 1);
    let c2 = module_baseline::get_candidates2();
    assert_eq!(c2.engine_name.as_str(), "Baseline");
    assert_eq!(c2.function_names.len(), 5);
    assert_eq!(c2.function_names[0].as_str(), "sum of divisors");
    assert_eq!(c2.function_names[4].as_str(), "sum of proper divisors");
    assert_eq!(c2.dates.len(), 5);
    assert_eq!(c2.status.len(), 5);
    assert_eq!(c2.functions.len(), 5);
}

#[test]
fn engine_attributions() {
    assert_eq!(module_claude::get_candidates().engine_name.as_str(), "Sonnet 3.7");
    assert_eq!(module_copilot::get_candidates().engine_name.as_str(), "Microsoft Copilot");
    assert_eq!(module_copilot::get_candidates().functions.len(), 3);
    assert_eq!(module_deepseek::get_candidates().engine_name.as_str(), "deepseek R1");
    assert_eq!(module_gemini::get_candidates().engine_name.as_str(), "gemini 2.0 Flash");
    assert_eq!(module_gemini::get_candidates2().engine_name.as_str(), "gemini 2.5 Pro");
    assert_eq!(module_grok::get_candidates().engine_name.as_str(), "Grock 2");
    assert_eq!(module_openai::get_candidates().engine_name.as_str(), "ChatGPT, version 2");
    assert_eq!(module_openai::get_candidates().functions.len(), 2);
    assert_eq!(module_synthaai::get_candidates().engine_name.as_str(), "syntha.ai");
    assert_eq!(module_watson::get_candidates().engine_name.as_str(), "watson");
    assert_eq!(module_watson::get_candidates().status[0], AICodeGenStatus::AIRefusedToAnswer);
}

#[test]
fn statuses_carried_per_variant() {
    let claude2 = module_claude::get_candidates2();
    assert_eq!(claude2.status[2], AICodeGenStatus::SecondTryOk);
    assert_eq!(claude2.status[0], AICodeGenStatus::FirstTryOk);
    let deepseek2 = module_deepseek::get_candidates2();
    assert_eq!(deepseek2.status[0], AICodeGenStatus::SecondTryOk);
    assert_eq!(deepseek2.status[3], AICodeGenStatus::IncorrectResult);
}

#[test]
fn snapshot_names() {
    let (engine, date, status) = module1::name();
    assert_eq!(engine, "Microsoft Copilot");
    assert_eq!(date, Date { year: 2025, month: 1, day: 2 });
    assert_eq!(status, AICodeGenStatus::FirstTryOk);
    assert_eq!(module3::name(), "syntha.ai 2 Jan 2025");
}

#[test]
fn date_validation() {
    assert!(Date::from_ymd_opt(2025, 1, 2).is_some());
    assert!(Date::from_ymd_opt(2025, 2, 29).is_none());
    assert!(Date::from_ymd_opt(2024, 2, 29).is_some());
    assert!(Date::from_ymd_opt(2000, 2, 29).is_some());
    assert!(Date::from_ymd_opt(1900, 2, 29).is_none());
    assert!(Date::from_ymd_opt(2025, 4, 31).is_none());
    assert!(Date::from_ymd_opt(2025, 4, 30).is_some());
    assert!(Date::from_ymd_opt(2025, 0, 1).is_none());
    assert!(Date::from_ymd_opt(2025, 13, 1).is_none());
    assert!(Date::from_ymd_opt(2025, 12, 0).is_none());
}

#[test]
fn built_registries_put_the_baseline_first() {
    let registry = aibench::registry::build_registry();
    assert_eq!(registry.len(), 9);
    assert_eq!(registry[0].engine_name.as_str(), "Baseline");
    assert_eq!(registry[0].functions.len(), 1);
    let registry2 = aibench::registry::build_registry2();
    assert_eq!(registry2.len(), 6);
    assert_eq!(registry2[0].engine_name.as_str(), "Baseline");
    assert_eq!(registry2[0].functions.len(), 5);
    for a in 0..registry2[0].function_names.len() {
        for b in (a + 1)..registry2[0].function_names.len() {
            assert_ne!(registry2[0].function_names[a], registry2[0].function_names[b]);
        }
    }
}
