//! Running a selection of devices: which devices a scenario means, and in
//! which groups they may run side by side.

use vstd::prelude::*;
use vstd::string::*;
use crate::config_engine::executor::{
    connection_failure, connection_failure_result, fleet_entry, unknown_device, untimed,
    ConfigExecutor, ExecutionResult,
};
use crate::config_engine::types::{
    is_first_key, key_position, lacks_key, lemma_key_absent, lemma_key_position, position_of,
    ConfigFile, DeviceConfig, Scenario, TargetDevices,
};
use crate::error::types::{message, validation_error, Error, ErrorModel};
use crate::text::{join3, str_eq};
use crate::transport::traits::Connector;

verus! {

/// One device that a selection means: its id, and its place in the
/// configuration, or none where the configuration holds no such device.
#[derive(Debug, Clone, PartialEq, Eq)]
pub struct Target {
    pub device_id: String,
    pub index: Option<usize>,
}

/// A target as contracts see it.
pub struct TargetModel {
    pub device_id: Seq<char>,
    pub index: Option<int>,
}

impl View for Target {
    type V = TargetModel;

    open spec fn view(&self) -> TargetModel {
        TargetModel {
            device_id: self.device_id@,
            index: match self.index {
                Some(i) => Some(i as int),
                None => None,
            },
        }
    }
}

/// The targets as contracts see them.
pub open spec fn target_models(targets: Seq<Target>) -> Seq<TargetModel> {
    targets.map_values(|t: Target| t@)
}

/// Whether a filter takes a device. A list of ids is no filter.
pub open spec fn takes(filter: TargetDevices, device: DeviceConfig) -> bool {
    match filter {
        TargetDevices::All => true,
        TargetDevices::ByType { device_type } => device.device_info.device_type == device_type,
        TargetDevices::ByVendor { vendor } => device.device_info.vendor@ == vendor@,
        TargetDevices::Specific { .. } => false,
    }
}

/// The devices among the first `upto` that a filter takes, in the order of
/// the configuration.
pub open spec fn filtered(
    devices: Seq<(String, DeviceConfig)>,
    filter: TargetDevices,
    upto: int,
) -> Seq<TargetModel>
    decreases upto,
{
    if upto <= 0 {
        Seq::empty()
    } else {
        let before = filtered(devices, filter, upto - 1);
        if takes(filter, devices[upto - 1].1) {
            before.push(TargetModel { device_id: devices[upto - 1].0@, index: Some(upto - 1) })
        } else {
            before
        }
    }
}

/// The devices that a list of ids names, one target for each id in the
/// order of the list, found or not.
pub open spec fn named(devices: Seq<(String, DeviceConfig)>, ids: Seq<String>) -> Seq<TargetModel> {
    Seq::new(
        ids.len(),
        |k: int| TargetModel { device_id: ids[k]@, index: key_position(devices, ids[k]@) },
    )
}

/// The devices that a selection means.
pub open spec fn targets_of(config: ConfigFile, selection: TargetDevices) -> Seq<TargetModel> {
    match selection {
        TargetDevices::Specific { devices } => named(config.devices@, devices@),
        _ => filtered(config.devices@, selection, config.devices@.len() as int),
    }
}

/// Whether a filter takes a device.
fn filter_takes(filter: &TargetDevices, device: &DeviceConfig) -> (taken: bool)
    ensures
        taken == takes(*filter, *device),
{
    match filter {
        TargetDevices::All => true,
        TargetDevices::ByType { device_type } => device.device_info.device_type == *device_type,
        TargetDevices::ByVendor { vendor } => str_eq(
            device.device_info.vendor.as_str(),
            vendor.as_str(),
        ),
        TargetDevices::Specific { .. } => false,
    }
}

/// Finds the devices that a selection means: every device, the devices of
/// a type or of a vendor in the order of the configuration, or the devices
/// with the listed ids in the order of the list.
pub fn resolve_targets(config: &ConfigFile, selection: &TargetDevices) -> (targets: Vec<Target>)
    ensures
        target_models(targets@) == targets_of(*config, *selection),
{
    let mut targets: Vec<Target> = Vec::new();
    match selection {
        TargetDevices::Specific { devices } => {
            let mut k: usize = 0;
            while k < devices.len()
                invariant
                    k <= devices.len(),
                    targets.len() == k,
                    forall|j: int|
                        0 <= j < k ==> (#[trigger] targets@[j])@ == named(
                            config.devices@,
                            devices@,
                        )[j],
                decreases devices.len() - k,
            {
                let index = position_of(&config.devices, devices[k].as_str());
                proof {
                    match index {
                        Some(i) => lemma_key_position(config.devices@, devices@[k as int]@, i as int),
                        None => lemma_key_absent(config.devices@, devices@[k as int]@),
                    }
                }
                targets.push(Target { device_id: devices[k].clone(), index });
                k = k + 1;
            }
            assert(target_models(targets@) =~= named(config.devices@, devices@));
        },
        _ => {
            let mut i: usize = 0;
            assert(target_models(targets@) =~= filtered(config.devices@, *selection, 0));
            while i < config.devices.len()
                invariant
                    i <= config.devices.len(),
                    !(selection is Specific),
                    target_models(targets@) == filtered(config.devices@, *selection, i as int),
                decreases config.devices.len() - i,
            {
                if filter_takes(selection, &config.devices[i].1) {
                    let ghost before = target_models(targets@);
                    let target = Target { device_id: config.devices[i].0.clone(), index: Some(i) };
                    targets.push(target);
                    assert(target_models(targets@) =~= before.push(target@));
                }
                i = i + 1;
            }
        },
    }
    targets
}

/// The error for an id under which the configuration holds no scenario.
pub open spec fn unknown_scenario(scenario_id: Seq<char>) -> ErrorModel {
    validation_error("Сценарий '"@ + scenario_id + "' не найден"@)
}

/// What holds of the results of a scenario: one result for each device
/// that the scenario means, in their order. A device that the
/// configuration holds has run its own steps and then the scenario's; an
/// id that it does not hold has the connection failure that says so.
pub open spec fn scenario_results(
    config: ConfigFile,
    scenario: Scenario,
    results: Seq<ExecutionResult>,
) -> bool {
    let targets = targets_of(config, scenario.target_devices);
    &&& results.len() == targets.len()
    &&& forall|k: int| 0 <= k < targets.len() ==> untimed(#[trigger] results[k])
    &&& forall|k: int|
        0 <= k < targets.len() ==> match targets[k].index {
            Some(place) => fleet_entry(
                config.global_settings.max_retries,
                targets[k].device_id,
                config.devices@[place].1,
                scenario.commands@,
                (#[trigger] results[k])@,
            ),
            None => results[k]@ == connection_failure(
                targets[k].device_id,
                message(unknown_device(targets[k].device_id)),
            ),
        }
}

impl ConfigExecutor {
    /// Runs the scenario with this id on the devices that it means, one
    /// after the other whatever the scenario's mode: a caller that can run
    /// devices side by side takes the targets and the groups from this
    /// module and runs each device for itself. An id under which the
    /// configuration holds no scenario is an error; nothing else fails the
    /// scenario as a whole.
    pub fn execute_scenario<C: Connector>(&self, connector: &mut C, scenario_id: &str) -> (answer:
        Result<Vec<ExecutionResult>, Error>)
        ensures
            lacks_key(self.configuration().scenarios@, scenario_id@) ==> answer is Err
                && answer->Err_0@ == unknown_scenario(scenario_id@),
            forall|i: int|
                is_first_key(self.configuration().scenarios@, scenario_id@, i) ==> answer is Ok
                    && scenario_results(
                    self.configuration(),
                    #[trigger] self.configuration().scenarios@[i].1,
                    answer->Ok_0@,
                ),
    {
        let config = self.config();
        let scenario = match position_of(&config.scenarios, scenario_id) {
            Some(i) => &config.scenarios[i].1,
            None => {
                return Err(
                    Error::ConfigValidation(join3("Сценарий '", scenario_id, "' не найден")),
                );
            },
        };
        let targets = resolve_targets(config, &scenario.target_devices);
        let ghost models = targets_of(*config, scenario.target_devices);
        let mut results: Vec<ExecutionResult> = Vec::new();
        let mut k: usize = 0;
        while k < targets.len()
            invariant
                k <= targets.len(),
                results.len() == k,
                *config == self.configuration(),
                models == targets_of(*config, scenario.target_devices),
                target_models(targets@) == models,
                forall|j: int| 0 <= j < k ==> untimed(#[trigger] results@[j]),
                forall|j: int|
                    0 <= j < k ==> match models[j].index {
                        Some(place) => fleet_entry(
                            config.global_settings.max_retries,
                            models[j].device_id,
                            config.devices@[place].1,
                            scenario.commands@,
                            (#[trigger] results@[j])@,
                        ),
                        None => results@[j]@ == connection_failure(
                            models[j].device_id,
                            message(unknown_device(models[j].device_id)),
                        ),
                    },
            decreases targets.len() - k,
        {
            let target = &targets[k];
            assert(models[k as int] == target@);
            let entry = match target.index {
                Some(place) => {
                    proof {
                        lemma_target_in_range(*config, scenario.target_devices, k as int);
                    }
                    self.run_entry(
                        connector,
                        target.device_id.as_str(),
                        &config.devices[place].1,
                        &scenario.commands,
                    )
                },
                None => {
                    let error = Error::ConfigValidation(
                        join3("Устройство '", target.device_id.as_str(), "' не найдено"),
                    );
                    connection_failure_result(target.device_id.as_str(), &error)
                },
            };
            results.push(entry);
            k = k + 1;
        }
        Ok(results)
    }
}

/// The targets that a filter takes lie within the configuration, in
/// ascending order of their places, and each is a device that the filter
/// takes under its own id.
pub proof fn lemma_filtered(devices: Seq<(String, DeviceConfig)>, filter: TargetDevices, upto: int)
    requires
        0 <= upto <= devices.len(),
    ensures
        filtered(devices, filter, upto).len() <= upto,
        forall|k: int|
            0 <= k < filtered(devices, filter, upto).len() ==> {
                let target = #[trigger] filtered(devices, filter, upto)[k];
                &&& target.index is Some
                &&& 0 <= target.index->0 < upto
                &&& takes(filter, devices[target.index->0].1)
                &&& target.device_id == devices[target.index->0].0@
            },
        forall|a: int, b: int|
            0 <= a < b < filtered(devices, filter, upto).len() ==> (#[trigger] filtered(
                devices,
                filter,
                upto,
            )[a]).index->0 < (#[trigger] filtered(devices, filter, upto)[b]).index->0,
    decreases upto,
{
    if upto > 0 {
        lemma_filtered(devices, filter, upto - 1);
    }
}

/// Every device that a filter takes is among its targets.
pub proof fn lemma_filtered_complete(
    devices: Seq<(String, DeviceConfig)>,
    filter: TargetDevices,
    upto: int,
    place: int,
)
    requires
        0 <= place < upto <= devices.len(),
        takes(filter, devices[place].1),
    ensures
        exists|k: int|
            0 <= k < filtered(devices, filter, upto).len() && (#[trigger] filtered(
                devices,
                filter,
                upto,
            )[k]).index == Some(place),
    decreases upto,
{
    let all = filtered(devices, filter, upto);
    if place == upto - 1 {
        assert(all[all.len() - 1].index == Some(place));
    } else {
        lemma_filtered_complete(devices, filter, upto - 1, place);
        let before = filtered(devices, filter, upto - 1);
        let k = choose|k: int| 0 <= k < before.len() && (#[trigger] before[k]).index == Some(place);
        assert(all[k] == before[k]);
    }
}

/// A target that has a place has it within the configuration.
pub proof fn lemma_target_in_range(config: ConfigFile, selection: TargetDevices, k: int)
    requires
        0 <= k < targets_of(config, selection).len(),
    ensures
        targets_of(config, selection)[k].index matches Some(place) ==> 0 <= place
            < config.devices@.len(),
{
    match selection {
        TargetDevices::Specific { devices } => {
            let key = devices@[k]@;
            if let Some(place) = key_position(config.devices@, key) {
                assert(is_first_key(config.devices@, key, place));
            }
        },
        _ => {
            lemma_filtered(config.devices@, selection, config.devices@.len() as int);
        },
    }
}

/// The groups in which `total` devices may run side by side when no more
/// than `max_in_flight` may run at once (one, where the limit is zero):
/// consecutive ranges of places, each from its first place up to but
/// without its second. Every group but the last is full, none is empty,
/// and together they cover every place once and in order.
pub fn plan_batches(total: usize, max_in_flight: usize) -> (batches: Vec<(usize, usize)>)
    ensures
        total == 0 <==> batches@.len() == 0,
        batches@.len() > 0 ==> batches@[0].0 == 0 && batches@.last().1 == total,
        forall|k: int|
            0 <= k < batches@.len() ==> (#[trigger] batches@[k]).0 < batches@[k].1 && batches@[k].1
                - batches@[k].0 <= batch_limit(max_in_flight),
        forall|k: int|
            0 <= k < batches@.len() - 1 ==> (#[trigger] batches@[k]).1 == batches@[k + 1].0
                && batches@[k].1 - batches@[k].0 == batch_limit(max_in_flight),
{
    let limit = if max_in_flight == 0 {
        1
    } else {
        max_in_flight
    };
    let mut batches: Vec<(usize, usize)> = Vec::new();
    let mut start: usize = 0;
    while start < total
        invariant
            start <= total,
            limit == batch_limit(max_in_flight),
            start == 0 <==> batches@.len() == 0,
            batches@.len() > 0 ==> batches@[0].0 == 0 && batches@.last().1 == start,
            forall|k: int|
                0 <= k < batches@.len() ==> (#[trigger] batches@[k]).0 < batches@[k].1
                    && batches@[k].1 - batches@[k].0 == limit,
            forall|k: int|
                0 <= k < batches@.len() - 1 ==> (#[trigger] batches@[k]).1 == batches@[k + 1].0,
        decreases total - start,
    {
        if total - start <= limit {
            batches.push((start, total));
            return batches;
        }
        let end = start + limit;
        batches.push((start, end));
        start = end;
    }
    batches
}

/// How many devices may run at once under a limit: the limit, or one
/// where it is zero.
pub open spec fn batch_limit(max_in_flight: usize) -> int {
    if max_in_flight == 0 {
        1
    } else {
        max_in_flight as int
    }
}

/// How a fleet run went: how many devices ran without a failure, and how
/// many did not.
#[derive(Debug, Clone, Copy, PartialEq, Eq, Structural)]
pub struct FleetSummary {
    pub succeeded: usize,
    pub failed: usize,
}

/// How many of the first `upto` results hold no failure.
pub open spec fn clean_runs(results: Seq<ExecutionResult>, upto: int) -> int
    decreases upto,
{
    if upto <= 0 {
        0
    } else {
        clean_runs(results, upto - 1) + if results[upto - 1]@.failures.len() == 0 {
            1int
        } else {
            0int
        }
    }
}

/// Counts the devices that ran without a failure and those that did not.
pub fn summarize(results: &Vec<ExecutionResult>) -> (summary: FleetSummary)
    ensures
        summary.succeeded == clean_runs(results@, results@.len() as int),
        summary.succeeded + summary.failed == results@.len(),
{
    let mut succeeded: usize = 0;
    let mut failed: usize = 0;
    let mut i: usize = 0;
    while i < results.len()
        invariant
            i <= results.len(),
            succeeded == clean_runs(results@, i as int),
            succeeded + failed == i,
        decreases results.len() - i,
    {
        if results[i].is_success() {
            succeeded = succeeded + 1;
        } else {
            failed = failed + 1;
        }
        i = i + 1;
    }
    FleetSummary { succeeded, failed }
}

} // verus!
