use rackit::config_engine::config_reader::{check_device, first_repeat, format_for, ConfigFormat};
use rackit::config_engine::executor::{check_response, connection_failure_result};
use rackit::config_engine::types::{
    default_command_delay, default_max_retries, default_timeout, lookup, position_of, CommandStep,
    ConfigFile, ConnectionConfig, CredentialsConfig, DeviceConfig, DeviceInfo, DeviceSettings,
    DeviceType, ErrorAction, ExecutionMode, GlobalSettings, LogLevel, Scenario, StepType,
    TargetDevices, TransportType,
};
use rackit::config_engine::ConfigReader;
use rackit::error::{Error, ErrorKind};

/// A reader that takes no file: only the rules are of interest here.
struct Rules;

impl ConfigReader for Rules {
    fn read_from_file(path: &str) -> Result<ConfigFile, Error> {
        Err(Error::ConfigNotFound(path.to_string()))
    }

    fn read_from_str(_content: &str) -> Result<ConfigFile, Error> {
        Err(Error::ConfigParse("not a format".to_string()))
    }

    fn supported_extensions() -> Vec<String> {
        vec![]
    }
}

fn device(name: &str, host: &str, username: &str, steps: usize) -> DeviceConfig {
    let mut command_sequence = vec![];
    for i in 0..steps {
        command_sequence.push(CommandStep {
            name: format!("step{}", i),
            step_type: StepType::Login,
            timeout_seconds: None,
            retry_count: None,
            on_error: ErrorAction::default(),
            description: None,
        });
    }
    DeviceConfig {
        device_info: DeviceInfo {
            name: name.to_string(),
            device_type: DeviceType::Router,
            model: "ESR-200".to_string(),
            description: None,
            vendor: "Eltex".to_string(),
        },
        connection: ConnectionConfig {
            transport: TransportType::Serial,
            host: host.to_string(),
            port: None,
            baud_rate: None,
            timeout_seconds: None,
        },
        credentials: CredentialsConfig {
            username: username.to_string(),
            password: String::new(),
            enable_password: None,
            ssh_key_path: None,
        },
        command_sequence,
        device_settings: DeviceSettings::default(),
    }
}

fn config(devices: Vec<(&str, DeviceConfig)>) -> ConfigFile {
    ConfigFile {
        global_settings: GlobalSettings::default(),
        devices: devices.into_iter().map(|(id, d)| (id.to_string(), d)).collect(),
        scenarios: vec![],
    }
}

fn rejected(text: &str) -> Result<(), Error> {
    Err(Error::ConfigValidation(text.to_string()))
}

#[test]
fn a_sound_configuration_is_valid() {
    let good = config(vec![
        ("a", device("A", "/dev/ttyS0", "admin", 1)),
        ("b", device("B", "10.0.0.1", "root", 3)),
    ]);
    assert_eq!(Rules::validate(&good), Ok(()));
}

#[test]
fn a_configuration_without_devices_is_rejected() {
    assert_eq!(
        Rules::validate(&config(vec![])),
        rejected("Конфигурация должна содержать хотя бы одно устройство")
    );
}

#[test]
fn each_rule_of_a_device_is_reported_with_the_id_of_the_device() {
    assert_eq!(
        Rules::validate(&config(vec![("r1", device("", "h", "u", 1))])),
        rejected("Имя устройства 'r1' не может быть пустым")
    );
    assert_eq!(
        Rules::validate(&config(vec![("r1", device("n", "", "u", 1))])),
        rejected("Хост для устройства 'r1' не может быть пустым")
    );
    assert_eq!(
        Rules::validate(&config(vec![("r1", device("n", "h", "", 1))])),
        rejected("Имя пользователя для устройства 'r1' не может быть пустым")
    );
    assert_eq!(
        Rules::validate(&config(vec![("r1", device("n", "h", "u", 0))])),
        rejected("Устройство 'r1' должно содержать хотя бы одну команду")
    );
}

#[test]
fn the_first_broken_rule_of_the_first_faulty_device_is_reported() {
    let bad = config(vec![
        ("a", device("A", "h", "u", 1)),
        ("b", device("B", "", "", 0)),
        ("c", device("", "", "", 0)),
    ]);
    assert_eq!(Rules::validate(&bad), rejected("Хост для устройства 'b' не может быть пустым"));
    assert_eq!(check_device("c", &bad.devices[2].1), rejected("Имя устройства 'c' не может быть пустым"));
    assert_eq!(check_device("a", &bad.devices[0].1), Ok(()));
}

#[test]
fn a_device_id_that_stands_twice_is_rejected() {
    let twice = config(vec![
        ("a", device("A", "h", "u", 1)),
        ("b", device("B", "h", "u", 1)),
        ("a", device("C", "h", "u", 1)),
        ("b", device("D", "h", "u", 1)),
    ]);
    assert_eq!(Rules::validate(&twice), rejected("Идентификатор устройства 'a' повторяется"));
    assert_eq!(first_repeat(&twice.devices), Some(2));
    let faulty_too = config(vec![
        ("a", device("A", "h", "u", 1)),
        ("a", device("", "h", "u", 1)),
    ]);
    assert_eq!(Rules::validate(&faulty_too), rejected("Имя устройства 'a' не может быть пустым"));
    let fine = config(vec![("a", device("A", "h", "u", 1)), ("b", device("B", "h", "u", 1))]);
    assert_eq!(first_repeat(&fine.devices), None);
    assert_eq!(first_repeat(&vec![]), None);
}

#[test]
fn the_defaults_are_three_retries_a_tenth_of_a_second_and_half_a_minute() {
    assert_eq!(default_max_retries(), 3);
    assert_eq!(default_command_delay(), 100);
    assert_eq!(default_timeout(), 30);
    let settings = GlobalSettings::default();
    assert_eq!(settings.max_retries, 3);
    assert_eq!(settings.command_delay_ms, 100);
    assert_eq!(settings.default_timeout_seconds, 30);
    assert_eq!(settings.log_level, LogLevel::Info);
    assert_eq!(LogLevel::default(), LogLevel::Info);
    assert_eq!(ErrorAction::default(), ErrorAction::Stop);
    assert_eq!(ExecutionMode::default(), ExecutionMode::Sequential);
    let device_settings = DeviceSettings::default();
    assert!(device_settings.prompts.is_empty());
    assert!(device_settings.extra_params.is_empty());
    assert!(device_settings.init_commands.is_empty());
}

#[test]
fn a_key_is_found_at_its_first_place() {
    let entries = vec![
        ("main".to_string(), "esr-200#".to_string()),
        ("login".to_string(), "login:".to_string()),
        ("main".to_string(), "#".to_string()),
    ];
    assert_eq!(position_of(&entries, "main"), Some(0));
    assert_eq!(position_of(&entries, "login"), Some(1));
    assert_eq!(position_of(&entries, "enable"), None);
    assert_eq!(lookup(&entries, "main"), Some(&"esr-200#".to_string()));
    assert_eq!(lookup(&entries, "Main"), None);
    let none: Vec<(String, String)> = vec![];
    assert_eq!(lookup(&none, "main"), None);
    let known = config(vec![("a", device("A", "h", "u", 1)), ("b", device("B", "h", "u", 1))]);
    assert_eq!(known.device("b").unwrap().device_info.name, "B");
    assert!(known.device("c").is_none());
    assert!(known.scenario("b").is_none());
}

#[test]
fn only_toml_files_have_a_reader() {
    assert_eq!(format_for(Some("toml")), Ok(ConfigFormat::Toml));
    assert_eq!(format_for(Some("yaml")), Err(Error::UnsupportedFormat("yaml".to_string())));
    assert_eq!(format_for(Some("TOML")), Err(Error::UnsupportedFormat("TOML".to_string())));
    assert_eq!(format_for(Some("")), Err(Error::UnsupportedFormat(String::new())));
    assert_eq!(format_for(None), Err(Error::UnsupportedFormat("no extension".to_string())));
}

#[test]
fn every_error_has_its_message() {
    let detail = "x".to_string();
    assert_eq!(Error::Connection(detail.clone()).to_string(), "Ошибка соединения: x");
    assert_eq!(Error::Io(detail.clone()).to_string(), "Ошибка ввода/вывода: x");
    assert_eq!(Error::Serial(detail.clone()).to_string(), "Ошибка Serial порта: x");
    assert_eq!(Error::Timeout.to_string(), "Таймаут операции");
    assert_eq!(Error::NotConnected.to_string(), "Устройство не подключено");
    assert_eq!(Error::ConfigParse(detail.clone()).to_string(), "Ошибка Парсинга конфигурации: x");
    assert_eq!(
        Error::ConfigValidation(detail.clone()).to_string(),
        "Ошибка валидации конфигурации: x"
    );
    assert_eq!(Error::ConfigRead(detail.clone()).to_string(), "Ошибка чтения конфигурации: x");
    assert_eq!(Error::Toml(detail.clone()).to_string(), "Ошибка Toml: x");
    assert_eq!(
        Error::UnsupportedFormat(detail.clone()).to_string(),
        "Неподерживаемый Формат конфигурации: x"
    );
    assert_eq!(
        Error::ConfigNotFound(detail.clone()).to_string(),
        "Конфигурационный файл не найден: x"
    );
    assert_eq!(Error::Connection(String::new()).to_string(), "Ошибка соединения: ");
    assert_eq!(Error::Timeout.kind(), ErrorKind::Timeout);
    assert_eq!(Error::Toml(detail.clone()).kind(), ErrorKind::Toml);
    assert_eq!(Error::ConfigValidation(detail).kind(), ErrorKind::ConfigValidation);
}

#[test]
fn a_check_is_decided_by_the_output_before_it() {
    let output = "Version 1.2.3\nesr-200#".to_string();
    assert_eq!(check_response(Some(&output), "1.2.3", true), Ok("Response check completed".to_string()));
    assert_eq!(check_response(Some(&output), "1.2.4", true), Err(Error::Timeout));
    assert_eq!(check_response(Some(&output), "1.2.4", false), Ok("Response check completed".to_string()));
    assert_eq!(check_response(None, "1.2.3", true), Err(Error::Timeout));
    assert_eq!(check_response(None, "", true), Ok("Response check completed".to_string()));
    assert_eq!(check_response(None, "1.2.3", false), Ok("Response check completed".to_string()));
    assert_eq!(check_response(Some(&output), "version", true), Err(Error::Timeout));
}

#[test]
fn a_session_that_could_not_be_set_up_has_one_failure_named_connection() {
    let result = connection_failure_result("r9", &Error::Serial("busy".to_string()));
    assert_eq!(result.device_id, "r9");
    assert_eq!(result.success_count(), 0);
    assert_eq!(result.error_count(), 1);
    assert_eq!(result.failed_commands[0].command_name, "connection");
    assert_eq!(result.failed_commands[0].error_message, "Ошибка Serial порта: busy");
    assert!(!result.is_success());
}

fn show(name: &str, text: &str, prompt: &str, timeout: u64) -> CommandStep {
    CommandStep {
        name: name.to_string(),
        step_type: StepType::Command {
            command: text.to_string(),
            expected_prompt: Some(prompt.to_string()),
        },
        timeout_seconds: Some(timeout),
        retry_count: Some(1),
        on_error: ErrorAction::Continue,
        description: None,
    }
}

fn entry(name: &str, step_type: StepType, retries: Option<u32>, on_error: ErrorAction) -> CommandStep {
    CommandStep {
        name: name.to_string(),
        step_type,
        timeout_seconds: Some(5),
        retry_count: retries,
        on_error,
        description: None,
    }
}

/// The example that ships with the program: a router on a serial line, a
/// switch over telnet and a server over ssh, with two scenarios.
fn example() -> ConfigFile {
    let mut router = device("Eltex ESR-200 Main Router", "/dev/ttyS0", "admin", 0);
    router.connection.baud_rate = Some(115200);
    router.connection.timeout_seconds = Some(10);
    router.command_sequence = vec![
        entry("login", StepType::Login, Some(2), ErrorAction::Stop),
        show("get_system_info", "show system", "esr-200#", 10),
        show("get_version", "show version", "esr-200#", 10),
        show("get_interfaces", "show interfaces", "esr-200#", 15),
        entry("logout", StepType::Logout, Some(1), ErrorAction::Continue),
    ];
    router.device_settings.init_commands = vec!["terminal length 0".to_string()];
    router.device_settings.prompts = vec![
        ("enable".to_string(), "esr-200>".to_string()),
        ("login".to_string(), "login:".to_string()),
        ("main".to_string(), "esr-200#".to_string()),
        ("password".to_string(), "Password:".to_string()),
    ];
    let mut switch = device("Cisco Catalyst 2960", "192.168.1.100", "admin", 0);
    switch.device_info.device_type = DeviceType::Switch;
    switch.device_info.vendor = "Cisco".to_string();
    switch.connection.transport = TransportType::Telnet;
    switch.connection.port = Some(23);
    switch.command_sequence = vec![
        entry("login", StepType::Login, Some(3), ErrorAction::Stop),
        show("enable_mode", "enable", "#", 5),
        show("show_version", "show version", "#", 10),
        show("show_vlans", "show vlan brief", "#", 10),
        entry("logout", StepType::Logout, None, ErrorAction::Continue),
    ];
    let mut server = device("Ubuntu Server", "192.168.1.50", "admin", 0);
    server.device_info.device_type = DeviceType::Server;
    server.device_info.vendor = "Ubuntu".to_string();
    server.connection.transport = TransportType::Ssh;
    server.connection.port = Some(22);
    server.command_sequence = vec![
        entry("login", StepType::Login, Some(3), ErrorAction::Stop),
        show("check_system", "uname -a", "$", 5),
        show("check_disk_space", "df -h", "$", 10),
        show("check_memory", "free -m", "$", 5),
        show("check_services", "systemctl status apache2", "$", 10),
    ];
    ConfigFile {
        global_settings: GlobalSettings {
            max_retries: 3,
            command_delay_ms: 200,
            default_timeout_seconds: 30,
            log_level: LogLevel::Info,
        },
        devices: vec![
            ("cisco_switch".to_string(), switch),
            ("eltex_router".to_string(), router),
            ("linux_server".to_string(), server),
        ],
        scenarios: vec![
            (
                "daily_check".to_string(),
                Scenario {
                    name: "Ежедневная проверка".to_string(),
                    description: Some("Проверка состояния всех устройств".to_string()),
                    target_devices: TargetDevices::All,
                    commands: vec![show("health_check", "show status", "#", 30)],
                    execution_mode: ExecutionMode::Sequential,
                },
            ),
            (
                "router_only".to_string(),
                Scenario {
                    name: "Проверка только маршрутизаторов".to_string(),
                    description: Some("Команды только для роутеров".to_string()),
                    target_devices: TargetDevices::ByType { device_type: DeviceType::Router },
                    commands: vec![show("check_routing_table", "show ip route", "#", 15)],
                    execution_mode: ExecutionMode::Parallel,
                },
            ),
        ],
    }
}

#[test]
fn the_example_configuration_holds_its_devices_and_scenarios_and_is_valid() {
    let config = example();
    assert!(config.device("eltex_router").is_some());
    assert!(config.device("cisco_switch").is_some());
    assert!(config.device("linux_server").is_some());
    let eltex = config.device("eltex_router").unwrap();
    assert_eq!(eltex.device_info.name, "Eltex ESR-200 Main Router");
    assert_eq!(eltex.connection.host, "/dev/ttyS0");
    assert_eq!(eltex.credentials.username, "admin");
    assert!(!eltex.command_sequence.is_empty());
    assert!(config.scenario("daily_check").is_some());
    assert!(config.scenario("router_only").is_some());
    assert_eq!(config.devices.len(), 3);
    assert_eq!(lookup(&eltex.device_settings.prompts, "main"), Some(&"esr-200#".to_string()));
    assert_eq!(Rules::validate(&config), Ok(()));
}
