use lanjing::policy::{check_capability, default_capabilities, merge, Capability, CapabilityError, PolicyCapabilities, SystemCapabilities};

#[test]
fn default_network_enabled() {
    let caps = default_capabilities();
    assert!(caps.network);
    assert!(!caps.system.fs);
    assert!(!caps.system.env);
    assert!(!caps.system.process);
}

#[test]
fn merge_source_tightens_network() {
    let global = default_capabilities();
    let source = PolicyCapabilities {
        network: false,
        system: SystemCapabilities { fs: false, env: false, process: false },
    };
    let merged = merge(&global, &source);
    assert!(!merged.network);
}

#[test]
fn merge_global_tightens_fs() {
    let global = default_capabilities();
    let source = PolicyCapabilities {
        network: true,
        system: SystemCapabilities { fs: true, env: false, process: false },
    };
    let merged = merge(&global, &source);
    assert!(merged.network);
    assert!(!merged.system.fs);
}

#[test]
fn check_capability_ok_for_network() {
    let caps = default_capabilities();
    assert!(check_capability(&caps, Capability::Network).is_ok());
    assert!(check_capability(&caps, Capability::Fs).is_err());
    assert!(check_capability(&caps, Capability::Env).is_err());
    assert!(check_capability(&caps, Capability::Process).is_err());
}

#[test]
fn check_capability_returns_blocked_error() {
    let caps = default_capabilities();
    let err = check_capability(&caps, Capability::Fs).unwrap_err();
    assert_eq!(err, CapabilityError::Blocked(Capability::Fs));
}

#[test]
fn merge_is_commutative_and_idempotent_on_values() {
    let a = PolicyCapabilities { network: true, system: SystemCapabilities { fs: true, env: false, process: true } };
    let b = PolicyCapabilities { network: false, system: SystemCapabilities { fs: true, env: true, process: true } };
    assert_eq!(merge(&a, &b), merge(&b, &a));
    assert_eq!(merge(&a, &a), a);
    assert_eq!(
        merge(&a, &b),
        PolicyCapabilities { network: false, system: SystemCapabilities { fs: true, env: false, process: true } }
    );
}
