use model_shards::config::{load_model, load_model_from_local_path, SourceError};
use model_shards::device::{device, open_device, precision_for, select_device, DeviceKind, Precision};

#[test]
fn force_cpu_wins_over_any_hardware() {
    for cuda in [false, true] {
        for metal in [false, true] {
            assert_eq!(select_device(true, cuda, metal), DeviceKind::Cpu);
        }
    }
}

#[test]
fn device_policy_order() {
    assert_eq!(select_device(false, true, true), DeviceKind::Cuda(0));
    assert_eq!(select_device(false, true, false), DeviceKind::Cuda(0));
    assert_eq!(select_device(false, false, true), DeviceKind::Metal(0));
    assert_eq!(select_device(false, false, false), DeviceKind::Cpu);
}

#[test]
fn device_with_cpu_flag_opens_the_cpu() {
    let d = device(true).ok().expect("the CPU always opens");
    assert_eq!(d.kind, DeviceKind::Cpu);
    assert!(d.handle.is_cpu());
}

#[test]
fn device_without_flag_opens_something() {
    if let Ok(d) = device(false) {
        assert!(matches!(d.kind, DeviceKind::Cpu | DeviceKind::Cuda(0) | DeviceKind::Metal(0)));
    }
}

#[test]
fn open_cpu_device() {
    let d = open_device(DeviceKind::Cpu).ok().expect("the CPU always opens");
    assert_eq!(d.kind, DeviceKind::Cpu);
}

#[test]
fn precision_follows_device() {
    assert_eq!(precision_for(DeviceKind::Cuda(0)), Precision::BF16);
    assert_eq!(precision_for(DeviceKind::Cuda(3)), Precision::BF16);
    assert_eq!(precision_for(DeviceKind::Metal(0)), Precision::F32);
    assert_eq!(precision_for(DeviceKind::Cpu), Precision::F32);
}

#[test]
fn model_source_local_path() {
    let p = Some("models/yi-6b".to_string());
    assert_eq!(load_model(&None, &p), Ok("models/yi-6b".to_string()));
    assert_eq!(load_model_from_local_path(&p), Ok("models/yi-6b".to_string()));
    assert_eq!(load_model_from_local_path(&None), Err(SourceError::PathMissing));
}

#[test]
fn model_source_errors() {
    let id = Some("01-ai/Yi-6B".to_string());
    let p = Some("models/yi-6b".to_string());
    assert_eq!(load_model(&id, &None), Err(SourceError::HubNotSupported));
    assert_eq!(load_model(&id, &p), Err(SourceError::NeedExactlyOneSource));
    assert_eq!(load_model(&None, &None), Err(SourceError::NeedExactlyOneSource));
}
