use raftcli::app_ota::ProgressTracker;
use raftcli::app_ports::PortsCmd;
use raftcli::delegation::{
    build_flash_delegation_args, build_monitor_delegation_args, build_ports_delegation_args,
    should_delegate,
};
use raftcli::raft_cli_utils::{
    check_for_raft_artifacts_deletion, convert_path_for_docker, default_esp_idf_version,
    flash_tool_candidates, get_build_folder_name, get_esp_idf_version_from_dockerfile,
    get_flash_tool_cmd, idf_version_ok, is_wsl, normalize_version, utils_get_sys_type,
    wsl_proc_version_marker,
};
use raftcli::serial_rx_handler::process_line;
use raftcli::systype_config::{systype_config_extract_systype_info, IniDoc, IniSection};
use raftcli::time_tracker::{LocalTime, TimeTracker};

#[test]
fn version_normalisation_takes_three_parts() {
    assert_eq!(normalize_version("5.3.1.2"), "5.3.1");
    assert_eq!(normalize_version("5.3.1"), "5.3.1");
    assert_eq!(normalize_version("5.3"), "5.3");
    assert_eq!(normalize_version("5"), "5");
}

#[test]
fn idf_version_check_reads_the_query_output() {
    assert!(idf_version_ok("ESP-IDF v5.3.1-dirty", "5.3.1"));
    assert!(idf_version_ok("ESP-IDF v5.3.1", "v wrong") == false);
    assert!(idf_version_ok("ESP-IDF v5.3.1.9", "5.3.1"));
    assert!(!idf_version_ok("ESP-IDF v5.4.0", "5.3.1"));
    assert!(!idf_version_ok("garbage", "5.3.1"));
}

#[test]
fn dockerfile_names_the_idf_version() {
    let lines = vec![
        "# build image".to_string(),
        "FROM espressif/idf:v5.1.2".to_string(),
        "RUN true".to_string(),
    ];
    assert_eq!(get_esp_idf_version_from_dockerfile(&lines).unwrap(), "5.1.2");

    let no_prefix = vec!["FROM debian:stable".to_string()];
    assert!(get_esp_idf_version_from_dockerfile(&no_prefix).is_none());

    let unprefixed_version = vec!["FROM espressif/idf:5.0".to_string()];
    assert_eq!(get_esp_idf_version_from_dockerfile(&unprefixed_version).unwrap(), "5.0");
}

#[test]
fn docker_paths_are_forward_slashed() {
    assert_eq!(convert_path_for_docker("\\\\?\\C:\\work\\proj".to_string()), "C:/work/proj");
    assert_eq!(convert_path_for_docker("C:\\work\\proj".to_string()), "C:/work/proj");
    assert_eq!(convert_path_for_docker("/home/dev/proj".to_string()), "/home/dev/proj");
}

#[test]
fn build_folder_and_default_version() {
    assert_eq!(
        get_build_folder_name("Main".to_string(), "app".to_string()),
        "app/build/Main"
    );
    assert_eq!(default_esp_idf_version(), "5.5.1");
}

#[test]
fn artifacts_deletion_decision() {
    assert!(!check_for_raft_artifacts_deletion(false, None, "Main"));
    assert!(check_for_raft_artifacts_deletion(true, None, "Main"));
    assert!(check_for_raft_artifacts_deletion(true, Some("Other\n".to_string()), "Main"));
    assert!(!check_for_raft_artifacts_deletion(true, Some("Main\n".to_string()), "Main"));
}

#[test]
fn sys_type_choice_skips_common() {
    assert_eq!(
        utils_get_sys_type(&Some("Given".to_string()), &vec!["Common".to_string()]),
        "Given"
    );
    assert_eq!(
        utils_get_sys_type(&None, &vec!["Common".to_string(), "Main".to_string()]),
        "Main"
    );
    assert_eq!(utils_get_sys_type(&None, &vec!["Common".to_string()]), "");
}

#[test]
fn wsl_detection_reads_environment_and_kernel_text() {
    let proc_text = "Linux version 5.15.146.1-microsoft-standard-WSL2".to_string();
    assert!(wsl_proc_version_marker(&proc_text));
    assert!(!wsl_proc_version_marker("Linux version 6.1.0"));
    assert!(is_wsl(false, true, None));
    assert!(is_wsl(false, false, Some(&proc_text)));
    assert!(!is_wsl(false, false, None));
    assert!(!is_wsl(true, true, Some(&proc_text)));
    assert!(should_delegate(true, false));
    assert!(!should_delegate(true, true));
    assert!(!should_delegate(false, false));
}

#[test]
fn flash_tool_choice() {
    assert_eq!(
        flash_tool_candidates(true, false, false),
        vec!["esptool.py.exe".to_string(), "esptool.exe".to_string()]
    );
    assert_eq!(
        flash_tool_candidates(false, true, false),
        vec!["esptool.py.exe".to_string(), "esptool.exe".to_string()]
    );
    assert_eq!(
        flash_tool_candidates(false, true, true),
        vec!["esptool.py".to_string(), "esptool".to_string()]
    );
    assert_eq!(
        flash_tool_candidates(false, false, false),
        vec!["esptool.py".to_string(), "esptool".to_string()]
    );
    assert_eq!(get_flash_tool_cmd(Some("mytool".to_string()), None, false), "mytool");
    assert_eq!(
        get_flash_tool_cmd(None, Some("esptool.py".to_string()), true),
        "esptool.py"
    );
    assert_eq!(get_flash_tool_cmd(None, None, true), "esptool.exe");
    assert_eq!(get_flash_tool_cmd(None, None, false), "esptool.py");
}

#[test]
fn systype_config_reads_sections_with_fallbacks() {
    let doc = IniDoc {
        sections: vec![
            IniSection {
                name: "env".to_string(),
                entries: vec![
                    ("target_chip".to_string(), "esp32".to_string()),
                    ("board_build.partitions".to_string(), "common.csv".to_string()),
                ],
            },
            IniSection {
                name: "env:Main".to_string(),
                entries: vec![("target_chip".to_string(), "esp32s3".to_string())],
            },
        ],
    };
    let config = systype_config_extract_systype_info("Main".to_string(), Some(&doc), true);
    assert_eq!(config.target_chip, "esp32s3");
    assert_eq!(config.partition_table_file, "common.csv");
    assert_eq!(config.sdkconfig_defaults_file, "systypes/Main/sdkconfig.defaults");

    let config = systype_config_extract_systype_info("Main".to_string(), Some(&doc), false);
    assert_eq!(config.sdkconfig_defaults_file, "systypes/Common/sdkconfig.defaults");

    let config = systype_config_extract_systype_info("Main".to_string(), None, true);
    assert_eq!(config.target_chip, "");
    assert_eq!(config.partition_table_file, "");
    assert_eq!(config.sdkconfig_defaults_file, "");
}

#[test]
fn received_lines_pass_through_with_timestamps_available() {
    let mut tracker = TimeTracker::new();
    let t = LocalTime { hour: 9, minute: 5, second: 3, micros: 42 };
    assert_eq!(process_line("boot done", &mut tracker, t), "boot done");
    assert_eq!(tracker.format_pc_time(t), "09:05:03.000042");
    assert_eq!(tracker.update(1234, t), "(1234 09:05:03.000042)");
    let midnight = LocalTime { hour: 0, minute: 0, second: 0, micros: 0 };
    assert_eq!(tracker.format_pc_time(midnight), "00:00:00.000000");
}

#[test]
fn monitor_delegation_forwards_every_flag() {
    let args = build_monitor_delegation_args(
        &"proj".to_string(),
        &None,
        115200,
        true,
        true,
        &"logs".to_string(),
        &Some("303a".to_string()),
    );
    assert_eq!(
        args,
        vec!["monitor", "proj", "-b", "115200", "-v", "303a", "-n", "-l", "-g", "logs"]
            .into_iter()
            .map(String::from)
            .collect::<Vec<_>>()
    );

    let bare = build_monitor_delegation_args(
        &"proj".to_string(),
        &Some("COM3".to_string()),
        9600,
        false,
        false,
        &"".to_string(),
        &None,
    );
    assert_eq!(
        bare,
        vec!["monitor", "proj", "-b", "9600", "-p", "COM3"]
            .into_iter()
            .map(String::from)
            .collect::<Vec<_>>()
    );
}

#[test]
fn ports_delegation_forwards_every_flag() {
    let mut cmd = PortsCmd::new_with_vid(Some("303a".to_string()));
    cmd.index = Some(2);
    cmd.debug = true;
    let args = build_ports_delegation_args(&cmd);
    assert_eq!(
        args,
        vec!["ports", "-v", "303a", "-i", "2", "-D", "-n"]
            .into_iter()
            .map(String::from)
            .collect::<Vec<_>>()
    );

    let plain = build_ports_delegation_args(&PortsCmd::new_with_vid(None));
    assert_eq!(plain, vec!["ports".to_string(), "-n".to_string()]);
}

#[test]
fn flash_delegation_forwards_every_flag() {
    let args = build_flash_delegation_args(
        &"Main".to_string(),
        &Some("COM3".to_string()),
        &None,
        921600,
        &Some("esptool.py".to_string()),
    );
    assert_eq!(
        args,
        vec!["flash", "-s", "Main", "-p", "COM3", "-f", "921600", "-t", "esptool.py", "-n"]
            .into_iter()
            .map(String::from)
            .collect::<Vec<_>>()
    );
}

#[test]
fn upload_progress_is_throttled() {
    let mut p = ProgressTracker::new(4096, 0);
    assert!(!p.update(1024, 100));
    assert!(p.update(1024, 600));
    assert_eq!(p.bytes_read(), 2048);
    assert_eq!(p.total_size(), 4096);
    // The next report waits for the interval from the last one.
    assert!(!p.update(1024, 900));
    assert!(p.update(1024, 1100));
    assert_eq!(p.bytes_read(), 4096);
}
