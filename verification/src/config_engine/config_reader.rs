//! Readers of configuration files, and the rules that every configuration
//! must meet before the engine takes it.

use vstd::prelude::*;
use vstd::string::*;
use crate::config_engine::types::{keys_distinct, ConfigFile, DeviceConfig};
use crate::error::types::{validation_error, Error, ErrorKind, ErrorModel};
use crate::text::{join3, str_eq};

verus! {

/// The error for a configuration without devices.
pub open spec fn no_devices() -> ErrorModel {
    validation_error("Конфигурация должна содержать хотя бы одно устройство"@)
}

/// The rule that a device breaks, if it breaks one: its name, its host and
/// its user name are not empty, and it has at least one step. Of several
/// broken rules the first in this order is reported.
pub open spec fn device_fault(device_id: Seq<char>, device: DeviceConfig) -> Option<ErrorModel> {
    if device.device_info.name@.len() == 0 {
        Some(validation_error("Имя устройства '"@ + device_id + "' не может быть пустым"@))
    } else if device.connection.host@.len() == 0 {
        Some(validation_error("Хост для устройства '"@ + device_id + "' не может быть пустым"@))
    } else if device.credentials.username@.len() == 0 {
        Some(
            validation_error(
                "Имя пользователя для устройства '"@ + device_id + "' не может быть пустым"@,
            ),
        )
    } else if device.command_sequence@.len() == 0 {
        Some(
            validation_error(
                "Устройство '"@ + device_id + "' должно содержать хотя бы одну команду"@,
            ),
        )
    } else {
        None
    }
}

/// The error for a device id that stands twice in the list of devices.
pub open spec fn repeated_device(device_id: Seq<char>) -> ErrorModel {
    validation_error("Идентификатор устройства '"@ + device_id + "' повторяется"@)
}

/// The device at `i` breaks a rule, and none before it does.
pub open spec fn is_first_fault(devices: Seq<(String, DeviceConfig)>, i: int) -> bool {
    &&& 0 <= i < devices.len()
    &&& device_fault(devices[i].0@, devices[i].1) is Some
    &&& forall|j: int| 0 <= j < i ==> device_fault((#[trigger] devices[j]).0@, devices[j].1) is None
}

/// No device breaks a rule.
pub open spec fn devices_sound(devices: Seq<(String, DeviceConfig)>) -> bool {
    forall|j: int|
        0 <= j < devices.len() ==> device_fault((#[trigger] devices[j]).0@, devices[j].1) is None
}

/// The id at `j` stands at an earlier place too, and no id before `j`
/// does so.
pub open spec fn is_first_repeat(devices: Seq<(String, DeviceConfig)>, j: int) -> bool {
    &&& 0 <= j < devices.len()
    &&& exists|i: int| 0 <= i < j && (#[trigger] devices[i]).0@ == devices[j].0@
    &&& keys_distinct(devices.take(j))
}

/// The configuration meets every rule: it has a device, no device breaks
/// a rule of its own, and no device id stands twice.
pub open spec fn is_valid(config: ConfigFile) -> bool {
    &&& config.devices@.len() > 0
    &&& devices_sound(config.devices@)
    &&& keys_distinct(config.devices@)
}

/// `error` reports the first rule that the configuration breaks: that it
/// has no device; else the fault of the first faulty device; else the
/// first device id that repeats an earlier one.
pub open spec fn reports_fault(config: ConfigFile, error: ErrorModel) -> bool {
    let devices = config.devices@;
    if devices.len() == 0 {
        error == no_devices()
    } else if !devices_sound(devices) {
        exists|i: int|
            is_first_fault(devices, i) && Some(error) == device_fault(
                (#[trigger] devices[i]).0@,
                devices[i].1,
            )
    } else {
        exists|j: int|
            is_first_repeat(devices, j) && error == repeated_device((#[trigger] devices[j]).0@)
    }
}

/// Checks one device against the rules of `device_fault`.
pub fn check_device(device_id: &str, device: &DeviceConfig) -> (checked: Result<(), Error>)
    ensures
        match checked {
            Ok(_) => device_fault(device_id@, *device) is None,
            Err(error) => device_fault(device_id@, *device) == Some(error@),
        },
{
    if device.device_info.name.as_str().is_empty() {
        return Err(
            Error::ConfigValidation(
                join3("Имя устройства '", device_id, "' не может быть пустым"),
            ),
        );
    }
    if device.connection.host.as_str().is_empty() {
        return Err(
            Error::ConfigValidation(
                join3("Хост для устройства '", device_id, "' не может быть пустым"),
            ),
        );
    }
    if device.credentials.username.as_str().is_empty() {
        return Err(
            Error::ConfigValidation(
                join3(
                    "Имя пользователя для устройства '",
                    device_id,
                    "' не может быть пустым",
                ),
            ),
        );
    }
    if device.command_sequence.len() == 0 {
        return Err(
            Error::ConfigValidation(
                join3("Устройство '", device_id, "' должно содержать хотя бы одну команду"),
            ),
        );
    }
    Ok(())
}

/// The first place whose device id repeats an earlier one.
pub fn first_repeat(devices: &Vec<(String, DeviceConfig)>) -> (found: Option<usize>)
    ensures
        match found {
            Some(j) => is_first_repeat(devices@, j as int),
            None => keys_distinct(devices@),
        },
{
    let mut j: usize = 0;
    while j < devices.len()
        invariant
            j <= devices.len(),
            keys_distinct(devices@.take(j as int)),
        decreases devices.len() - j,
    {
        let mut i: usize = 0;
        while i < j
            invariant
                i <= j < devices.len(),
                keys_distinct(devices@.take(j as int)),
                forall|k: int| 0 <= k < i ==> (#[trigger] devices@[k]).0@ != devices@[j as int].0@,
            decreases j - i,
        {
            if str_eq(devices[i].0.as_str(), devices[j].0.as_str()) {
                assert(devices@[i as int].0@ == devices@[j as int].0@);
                return Some(j);
            }
            i = i + 1;
        }
        assert(keys_distinct(devices@.take(j + 1))) by {
            let longer = devices@.take(j + 1);
            let shorter = devices@.take(j as int);
            assert forall|a: int, b: int| 0 <= a < b < longer.len() implies (#[trigger] longer[a]).0@
                != (#[trigger] longer[b]).0@ by {
                if b < j {
                    assert(shorter[a] == longer[a] && shorter[b] == longer[b]);
                } else {
                    assert(longer[a] == devices@[a]);
                }
            }
        }
        j = j + 1;
    }
    assert(devices@.take(devices.len() as int) == devices@);
    None
}

/// A format in which configurations are written.
#[derive(Debug, Clone, Copy, PartialEq, Eq, Structural)]
pub enum ConfigFormat {
    Toml,
}

/// The format that a file extension stands for, if it stands for one.
pub open spec fn format_of(extension: Option<Seq<char>>) -> Option<ConfigFormat> {
    match extension {
        Some(text) => if text == "toml"@ {
            Some(ConfigFormat::Toml)
        } else {
            None
        },
        None => None,
    }
}

/// Finds the format of a configuration file from the extension of its
/// name. An extension that stands for no format is an error that names
/// the extension; so is a name without one.
pub fn format_for(extension: Option<&str>) -> (format: Result<ConfigFormat, Error>)
    ensures
        match format_of(
            match extension {
                Some(text) => Some(text@),
                None => None,
            },
        ) {
            Some(known) => format == Ok::<ConfigFormat, Error>(known),
            None => format is Err && format->Err_0@ == (ErrorModel {
                kind: ErrorKind::UnsupportedFormat,
                detail: match extension {
                    Some(text) => text@,
                    None => "no extension"@,
                },
            }),
        },
{
    match extension {
        Some(text) => {
            if str_eq(text, "toml") {
                Ok(ConfigFormat::Toml)
            } else {
                Err(Error::UnsupportedFormat(String::from_str(text)))
            }
        },
        None => Err(Error::UnsupportedFormat(String::from_str("no extension"))),
    }
}

/// A reader of configurations in one format.
pub trait ConfigReader {
    /// Reads and validates the configuration in the file at `path`.
    fn read_from_file(path: &str) -> Result<ConfigFile, Error>;

    /// Reads and validates the configuration in `content`.
    fn read_from_str(content: &str) -> Result<ConfigFile, Error>;

    /// The file extensions that this reader takes.
    fn supported_extensions() -> Vec<String>;

    /// Checks a configuration against the rules. The answer is `Ok`
    /// exactly for a valid configuration; the error is a validation error
    /// that reports the first broken rule.
    fn validate(config: &ConfigFile) -> (checked: Result<(), Error>)
        ensures
            checked is Ok <==> is_valid(*config),
            checked matches Err(error) ==> reports_fault(*config, error@),
    {
        if config.devices.len() == 0 {
            return Err(
                Error::ConfigValidation(
                    String::from_str("Конфигурация должна содержать хотя бы одно устройство"),
                ),
            );
        }
        let mut i: usize = 0;
        while i < config.devices.len()
            invariant
                i <= config.devices.len(),
                config.devices@.len() > 0,
                forall|j: int|
                    0 <= j < i ==> device_fault(
                        (#[trigger] config.devices@[j]).0@,
                        config.devices@[j].1,
                    ) is None,
            decreases config.devices.len() - i,
        {
            match check_device(config.devices[i].0.as_str(), &config.devices[i].1) {
                Ok(_) => {},
                Err(error) => {
                    assert(is_first_fault(config.devices@, i as int));
                    return Err(error);
                },
            }
            i = i + 1;
        }
        match first_repeat(&config.devices) {
            None => Ok(()),
            Some(j) => {
                Err(
                    Error::ConfigValidation(
                        join3(
                            "Идентификатор устройства '",
                            config.devices[j].0.as_str(),
                            "' повторяется",
                        ),
                    ),
                )
            },
        }
    }
}

} // verus!
