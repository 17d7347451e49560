use trident_fuzz::config::afl::{Afl, AflSeed, _Afl, _AflSeed};
use trident_fuzz::config::constants::{
    AFL_WORKSPACE_DEFAULT_IN, AFL_WORKSPACE_DEFAULT_OUT, CARGO_TARGET_DIR_DEFAULT_AFL, CARGO_TARGET_DIR_DEFAULT_HFUZZ,
    HFUZZ_WORKSPACE_DEFAULT_HFUZZ,
};
use trident_fuzz::config::fuzz::{try_parse_account, try_parse_program, AccountRaw, FuzzAccountRaw};
use trident_fuzz::config::honggfuzz::{HonggFuzz, _HonggFuzz};

#[test]
fn honggfuzz_defaults() {
    let h = HonggFuzz::from(_HonggFuzz::default());
    assert_eq!(h.get_collect_fuzz_args(), vec!["-t 10", "-N 0", "-r 6", "--run_time 0", "-F 1048576"]);
    assert_eq!(h.get_cargo_target_dir().unwrap(), CARGO_TARGET_DIR_DEFAULT_HFUZZ);
    assert_eq!(h.get_hfuzz_workspace().unwrap(), HFUZZ_WORKSPACE_DEFAULT_HFUZZ);
    assert!(h.get_threads().is_none());
}

#[test]
fn honggfuzz_configured_options() {
    let f = _HonggFuzz {
        timeout: Some(3),
        threads: Some(4),
        keep_output: Some(true),
        verbose: Some(false),
        exit_upon_crash: Some(true),
        cargo_target_dir: Some(String::new()),
        hfuzz_workspace: Some("ws".to_string()),
        crashdir: Some("crashes".to_string()),
        extension: Some("sol".to_string()),
        run_time: Some(60),
        max_file_size: Some(512),
        save_all: Some(true),
        ..Default::default()
    };
    let h = HonggFuzz::from(f);
    assert_eq!(
        h.get_collect_fuzz_args(),
        vec![
            "-t 3",
            "-N 0",
            "-n 4",
            "-Q",
            "--exit_upon_crash",
            "-r 6",
            "--crashdir crashes",
            "-e sol",
            "--run_time 60",
            "-F 512",
            "-u"
        ]
    );
    assert_eq!(h.get_cargo_target_dir().unwrap(), CARGO_TARGET_DIR_DEFAULT_HFUZZ);
    assert_eq!(h.get_hfuzz_workspace().unwrap(), "ws");
}

#[test]
fn afl_defaults() {
    let a = Afl::from(_Afl::default());
    assert_eq!(a.get_collect_build_args(), vec!["--target-dir", CARGO_TARGET_DIR_DEFAULT_AFL]);
    assert_eq!(a.get_collect_fuzz_args(), vec!["-i", AFL_WORKSPACE_DEFAULT_IN, "-o", AFL_WORKSPACE_DEFAULT_OUT]);
    assert_eq!(a.seeds.len(), 1);
    assert_eq!(a.seeds[0].file_name, "trident-seed");
    assert_eq!(a.seeds[0].seed, b"trident".to_vec());
    assert!(!a.seeds[0].override_file);
}

#[test]
fn afl_configured_options() {
    let f = _Afl {
        cargo_target_dir: Some("target".to_string()),
        execs: Some(555),
        seconds: Some(0),
        seeds: Some(vec![_AflSeed {
            file_name: "s1".to_string(),
            seed: None,
            override_file: Some(true),
            bytes_count: Some(16),
        }]),
        ..Default::default()
    };
    let a = Afl::from(f);
    assert_eq!(a.get_collect_build_args(), vec!["--target-dir", "target"]);
    assert_eq!(a.get_collect_fuzz_args(), vec!["-i", AFL_WORKSPACE_DEFAULT_IN, "-o", AFL_WORKSPACE_DEFAULT_OUT, "-E", "555"]);
    assert_eq!(a.seeds[0].seed.len(), 16);
    assert!(a.seeds[0].override_file);
}

#[test]
fn afl_seed_from_text() {
    let s = AflSeed::from(_AflSeed {
        file_name: "f".to_string(),
        seed: Some(String::new()),
        override_file: None,
        bytes_count: Some(0),
    });
    assert_eq!(s.seed, b"trident".to_vec());
    assert!(!s.override_file);
    let d = AflSeed::from(_AflSeed::default());
    assert_eq!(d.file_name, "trident-seed");
}

#[test]
fn programs_and_accounts_from_their_dumps() {
    let addr = "TokenkegQfeZyiNwAJbNbGKPFXCWuBvf9Ss623VQ5DA";
    let p = try_parse_program(addr, vec![1, 2, 3]).unwrap();
    assert_eq!(p.address.to_bytes(), solana_sdk::pubkey::Pubkey::from_str_const(addr).to_bytes());
    assert_eq!(p.data, vec![1, 2, 3]);
    assert!(try_parse_program("not base58 0OIl", vec![]).is_none());
    let raw = FuzzAccountRaw {
        pubkey: addr.to_string(),
        account: AccountRaw {
            lamports: 9,
            data: vec!["AQID".to_string(), "base64".to_string()],
            owner: "11111111111111111111111111111111".to_string(),
            executable: true,
            rent_epoch: 3,
        },
    };
    let acc = try_parse_account(&raw).unwrap();
    assert_eq!(acc.account.owner.to_bytes(), [0u8; 32]);
    assert_eq!(acc.account.data, "AQID");
    assert_eq!((acc.account.lamports, acc.account.executable, acc.account.rent_epoch), (9, true, 3));
    let empty = FuzzAccountRaw { pubkey: addr.to_string(), account: AccountRaw { data: vec![], ..raw.account } };
    assert!(try_parse_account(&empty).is_none());
}
