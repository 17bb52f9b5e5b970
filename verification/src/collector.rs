//! The collector: what it remembers between scrapes, and how a scrape is
//! put together from the outcomes of its collections.
//!
//! Time is counted in nanoseconds from a start that the caller fixes; the
//! intervals of the settings are in seconds.

use vstd::prelude::*;
use crate::config::{Config, ConfigView};
use crate::nvme::discovery::{NvmeController, NvmeControllerView};
use crate::nvme::error::NvmeError;
use crate::metrics::{
    device_views, unknown_label, DeviceSnapshot, DeviceSnapshotView, NamespaceSnapshotView,
    ScrapeReport, ScrapeReportView,
};
use crate::ordered::{
    has_name, lemma_name_lt_irreflexive, lemma_upserted, models_of, name_lt, strictly_ordered,
    upsert_by_name, upserted, Named,
};
use crate::nvme::text::{optional_text, texts};
use crate::nvme::types::SmartLog;

verus! {

/// Nanoseconds in a second.
pub const NANOS_PER_SECOND: u128 = 1_000_000_000;

/// A snapshot with the time at which its device was last collected.
#[derive(Debug)]
pub struct CachedDevice {
    pub snapshot: DeviceSnapshot,
    pub last_seen: u64,
}

/// The model of a `CachedDevice`.
pub struct CachedDeviceView {
    pub snapshot: DeviceSnapshotView,
    pub last_seen: u64,
}

impl View for CachedDevice {
    type V = CachedDeviceView;

    open spec fn view(&self) -> CachedDeviceView {
        CachedDeviceView { snapshot: self.snapshot@, last_seen: self.last_seen }
    }
}

impl Clone for CachedDevice {
    fn clone(&self) -> (copy: Self)
        ensures
            copy@ == self@,
    {
        CachedDevice { snapshot: self.snapshot.clone(), last_seen: self.last_seen }
    }
}

impl Named for CachedDevice {
    open spec fn name_of(model: CachedDeviceView) -> Seq<char> {
        model.snapshot.device
    }

    fn name(&self) -> (name: &String) {
        &self.snapshot.device
    }
}

/// The controllers of the last discovery, and until when they are good.
#[derive(Debug)]
pub struct CachedDiscovery {
    pub controllers: Vec<NvmeController>,
    pub expires_at: u128,
}

/// The model of a `CachedDiscovery`.
pub struct CachedDiscoveryView {
    pub controllers: Seq<NvmeControllerView>,
    pub expires_at: u128,
}

/// The outcome of the collection of one controller.
#[derive(Debug)]
pub struct Collected {
    pub controller: NvmeController,
    pub outcome: Result<DeviceSnapshot, NvmeError>,
}

/// The model of a `Collected`: the controller, and the snapshot where the
/// collection succeeded.
pub struct CollectedView {
    pub controller: NvmeControllerView,
    pub snapshot: Option<DeviceSnapshotView>,
}

impl View for Collected {
    type V = CollectedView;

    open spec fn view(&self) -> CollectedView {
        CollectedView {
            controller: self.controller@,
            snapshot: match self.outcome {
                Ok(snapshot) => Some(snapshot@),
                Err(_) => None,
            },
        }
    }
}

/// The models of a list of outcomes.
pub open spec fn collected_views(outcomes: Seq<Collected>) -> Seq<CollectedView> {
    outcomes.map_values(|collected: Collected| collected@)
}

/// What a collector remembers, and the settings it runs under.
#[derive(Debug)]
pub struct NvmeCollector {
    config: Config,
    discovery_cache: Option<CachedDiscovery>,
    devices: Vec<CachedDevice>,
}

/// The model of an `NvmeCollector`.
pub struct NvmeCollectorView {
    pub config: ConfigView,
    pub discovery_cache: Option<CachedDiscoveryView>,
    /// The remembered devices, in the order of their names.
    pub devices: Seq<CachedDeviceView>,
}

impl View for NvmeCollector {
    type V = NvmeCollectorView;

    closed spec fn view(&self) -> NvmeCollectorView {
        NvmeCollectorView {
            config: self.config@,
            discovery_cache: match self.discovery_cache {
                Some(cache) => Some(
                    CachedDiscoveryView {
                        controllers: models_of(cache.controllers@),
                        expires_at: cache.expires_at,
                    },
                ),
                None => None,
            },
            devices: models_of(self.devices@),
        }
    }
}

/// What discovery found of a label, or `unknown`.
pub open spec fn discovered_label(label: Option<Seq<char>>) -> Seq<char> {
    match label {
        Some(text) => text,
        None => unknown_label(),
    }
}

/// The snapshot of a controller of which only discovery knows anything.
pub open spec fn minimal(controller: NvmeControllerView, accessible: bool) -> DeviceSnapshotView {
    DeviceSnapshotView {
        device: controller.name,
        model: discovered_label(controller.model),
        serial: discovered_label(controller.serial),
        firmware: discovered_label(controller.firmware),
        accessible,
        smart: None,
        namespaces: Seq::empty(),
        error_log: None,
        self_test: None,
    }
}

/// The snapshot marked as not accessible.
pub open spec fn inaccessible(snapshot: DeviceSnapshotView) -> DeviceSnapshotView {
    DeviceSnapshotView { accessible: false, ..snapshot }
}

/// The place of the first remembered device named `name`, if there is one.
pub open spec fn first_named(previous: Seq<CachedDeviceView>, name: Seq<char>) -> Option<int>
    decreases previous.len(),
{
    if previous.len() == 0 {
        None
    } else {
        match first_named(previous.drop_last(), name) {
            Some(index) => Some(index),
            None => if previous.last().snapshot.device == name {
                Some(previous.len() - 1)
            } else {
                None
            },
        }
    }
}

/// What is reported of a controller whose collection failed: the snapshot
/// remembered under its name, marked as not accessible, or, where none is
/// remembered, the minimal snapshot.
pub open spec fn fallback(
    previous: Seq<CachedDeviceView>,
    controller: NvmeControllerView,
) -> DeviceSnapshotView {
    match first_named(previous, controller.name) {
        Some(index) => inaccessible(previous[index].snapshot),
        None => minimal(controller, false),
    }
}

/// The snapshot that a collection contributes: its own where it succeeded,
/// the fallback where it failed.
pub open spec fn contributed(
    previous: Seq<CachedDeviceView>,
    collected: CollectedView,
) -> DeviceSnapshotView {
    match collected.snapshot {
        Some(snapshot) => snapshot,
        None => fallback(previous, collected.controller),
    }
}

/// The snapshots that the collections of a scrape contribute, one for each.
pub open spec fn contributions(
    previous: Seq<CachedDeviceView>,
    outcomes: Seq<CollectedView>,
) -> Seq<DeviceSnapshotView> {
    outcomes.map_values(|collected: CollectedView| contributed(previous, collected))
}

/// The names of the controllers that the collections of a scrape were for.
pub open spec fn controller_names(outcomes: Seq<CollectedView>) -> Seq<Seq<char>> {
    outcomes.map_values(|collected: CollectedView| collected.controller.name)
}

/// Whether every collection succeeded.
pub open spec fn all_succeeded(outcomes: Seq<CollectedView>) -> bool {
    forall|i: int| 0 <= i < outcomes.len() ==> (#[trigger] outcomes[i]).snapshot.is_some()
}

/// The remembered devices after the snapshots of a scrape were put in, each
/// under the name of its device and as seen at `now`.
pub open spec fn with_collected(
    cache: Seq<CachedDeviceView>,
    collected: Seq<DeviceSnapshotView>,
    now: u64,
) -> Seq<CachedDeviceView>
    decreases collected.len(),
{
    if collected.len() == 0 {
        cache
    } else {
        upserted::<CachedDevice>(
            with_collected(cache, collected.drop_last(), now),
            CachedDeviceView { snapshot: collected.last(), last_seen: now },
        )
    }
}

/// How long ago a device was last seen, in nanoseconds; zero where the
/// clock ran backwards.
pub open spec fn age(now: u64, last_seen: u64) -> int {
    if now >= last_seen {
        now - last_seen
    } else {
        0
    }
}

/// Whether a remembered device stays: it is among the discovered, or it
/// was last seen no longer ago than the grace period of `grace` seconds.
pub open spec fn kept(
    entry: CachedDeviceView,
    discovered: Seq<Seq<char>>,
    now: u64,
    grace: u64,
) -> bool {
    discovered.contains(entry.snapshot.device) || age(now, entry.last_seen) <= grace
        * 1_000_000_000
}

/// A remembered device as it is reported: as it is where it is among the
/// discovered, marked as not accessible otherwise.
pub open spec fn marked(entry: CachedDeviceView, discovered: Seq<Seq<char>>) -> CachedDeviceView {
    if discovered.contains(entry.snapshot.device) {
        entry
    } else {
        CachedDeviceView { snapshot: inaccessible(entry.snapshot), ..entry }
    }
}

/// The remembered devices without those that are gone for longer than the
/// grace period, the others marked.
pub open spec fn swept(
    cache: Seq<CachedDeviceView>,
    discovered: Seq<Seq<char>>,
    now: u64,
    grace: u64,
) -> Seq<CachedDeviceView>
    decreases cache.len(),
{
    if cache.len() == 0 {
        Seq::empty()
    } else {
        let before = swept(cache.drop_last(), discovered, now, grace);
        if kept(cache.last(), discovered, now, grace) {
            before.push(marked(cache.last(), discovered))
        } else {
            before
        }
    }
}

/// The remembered devices after a scrape: the collected snapshots put in,
/// then the devices swept.
pub open spec fn merged(
    cache: Seq<CachedDeviceView>,
    collected: Seq<DeviceSnapshotView>,
    discovered: Seq<Seq<char>>,
    now: u64,
    grace: u64,
) -> Seq<CachedDeviceView> {
    swept(with_collected(cache, collected, now), discovered, now, grace)
}

/// The snapshots of the remembered devices, in their order.
pub open spec fn snapshots_of(cache: Seq<CachedDeviceView>) -> Seq<DeviceSnapshotView> {
    cache.map_values(|entry: CachedDeviceView| entry.snapshot)
}

/// The report of a scrape that took `duration_nanos`, given what the
/// collector remembered, when the scrape began, and how the collections
/// ended.
pub open spec fn scrape_report(
    collector: NvmeCollectorView,
    now: u64,
    duration_nanos: u128,
    previous: Seq<CachedDeviceView>,
    outcomes: Seq<CollectedView>,
) -> ScrapeReportView {
    ScrapeReportView {
        duration_nanos,
        success: all_succeeded(outcomes),
        discovered_device_count: outcomes.len() as usize,
        devices: snapshots_of(
            merged(
                collector.devices,
                contributions(previous, outcomes),
                controller_names(outcomes),
                now,
                collector.config.stale_device_grace,
            ),
        ),
        collect_namespace: collector.config.collect_namespace,
        collect_error_log: collector.config.collect_error_log,
        collect_self_test: collector.config.collect_self_test,
    }
}

/// Whether the outcome of a SMART read at start-up shows a readable
/// controller: the read succeeded and returned a whole page.
pub open spec fn readable(page: Result<Vec<u8>, NvmeError>) -> bool {
    match page {
        Ok(bytes) => bytes@.len() == 512,
        Err(_) => false,
    }
}

/// Whether one of the names is `name`.
fn contains_name(names: &Vec<String>, name: &String) -> (found: bool)
    ensures
        found == texts(names@).contains(name@),
{
    let mut index: usize = 0;
    while index < names.len()
        invariant
            index <= names@.len(),
            forall|i: int| 0 <= i < index ==> texts(names@)[i] != name@,
        decreases names@.len() - index,
    {
        if names[index] == *name {
            assert(texts(names@)[index as int] == name@);
            return true;
        }
        index += 1;
    }
    false
}

/// What discovery found of a label, or `unknown`.
fn discovered_label_text(label: &Option<String>) -> (text: String)
    ensures
        text@ == discovered_label(optional_text(*label)),
{
    match label {
        Some(text) => text.clone(),
        None => "unknown".to_owned(),
    }
}

/// A copy of the snapshot, marked as not accessible.
fn inaccessible_copy(snapshot: &DeviceSnapshot) -> (copy: DeviceSnapshot)
    ensures
        copy@ == inaccessible(snapshot@),
{
    let mut copy = snapshot.clone();
    copy.accessible = false;
    copy
}

impl NvmeCollector {
    /// The remembered devices are always in ascending order of their names,
    /// and none is remembered twice.
    #[verifier::type_invariant]
    spec fn devices_in_order(self) -> bool {
        strictly_ordered::<CachedDevice>(models_of(self.devices@))
    }

    /// A collector that remembers nothing yet.
    pub fn new(config: Config) -> (collector: Self)
        ensures
            collector@ == (NvmeCollectorView {
                config: config@,
                discovery_cache: None,
                devices: Seq::empty(),
            }),
    {
        let collector = NvmeCollector { config, discovery_cache: None, devices: Vec::new() };
        assert(models_of(collector.devices@) =~= Seq::<CachedDeviceView>::empty());
        collector
    }

    /// The settings of the collector.
    pub fn config(&self) -> (config: &Config)
        ensures
            config@ == self@.config,
    {
        &self.config
    }

    /// The controllers of the last discovery, as long as it is good: `None`
    /// where there was no discovery yet or `now` is not before the time at
    /// which it expires.
    pub fn cached_controllers(&self, now: u64) -> (controllers: Option<Vec<NvmeController>>)
        ensures
            match self@.discovery_cache {
                Some(cache) => if now < cache.expires_at {
                    controllers matches Some(list) && models_of(list@) == cache.controllers
                } else {
                    controllers.is_none()
                },
                None => controllers.is_none(),
            },
    {
        match &self.discovery_cache {
            Some(cache) => {
                if (now as u128) < cache.expires_at {
                    Some(clone_controllers(&cache.controllers))
                } else {
                    None
                }
            },
            None => None,
        }
    }

    /// Remembers the controllers that a discovery at `now` yielded; they
    /// are good for the discovery interval, an empty list as much as any
    /// other.
    pub fn cache_controllers(&mut self, now: u64, controllers: &Vec<NvmeController>)
        ensures
            final(self)@ == (NvmeCollectorView {
                discovery_cache: Some(
                    CachedDiscoveryView {
                        controllers: models_of(controllers@),
                        expires_at: (now + old(self)@.config.discovery_interval
                            * 1_000_000_000) as u128,
                    },
                ),
                ..old(self)@
            }),
    {
        proof {
            use_type_invariant(&*self);
        }
        let lifetime: u128 = self.config.discovery_interval as u128 * NANOS_PER_SECOND;
        self.discovery_cache = Some(
            CachedDiscovery {
                controllers: clone_controllers(controllers),
                expires_at: now as u128 + lifetime,
            },
        );
    }

    /// A copy of the remembered devices.
    pub fn load_previous_devices(&self) -> (previous: Vec<CachedDevice>)
        ensures
            models_of(previous@) == self@.devices,
            strictly_ordered::<CachedDevice>(self@.devices),
    {
        proof {
            use_type_invariant(self);
        }
        let mut previous: Vec<CachedDevice> = Vec::new();
        let mut index: usize = 0;
        while index < self.devices.len()
            invariant
                index <= self.devices@.len(),
                previous@.len() == index,
                forall|i: int| 0 <= i < index ==> (#[trigger] previous@[i])@ == self.devices@[i]@,
            decreases self.devices@.len() - index,
        {
            let entry = self.devices[index].clone();
            previous.push(entry);
            index += 1;
        }
        assert(models_of(previous@) =~= models_of(self.devices@));
        previous
    }

    /// The snapshot of a controller of which only discovery knows anything.
    pub fn minimal_snapshot(controller: &NvmeController, accessible: bool) -> (snapshot:
        DeviceSnapshot)
        ensures
            snapshot@ == minimal(controller@, accessible),
    {
        let snapshot = DeviceSnapshot {
            device: controller.name.clone(),
            model: discovered_label_text(&controller.model),
            serial: discovered_label_text(&controller.serial),
            firmware: discovered_label_text(&controller.firmware),
            accessible,
            smart: None,
            namespaces: Vec::new(),
            error_log: None,
            self_test: None,
        };
        assert(snapshot@.namespaces =~= Seq::<NamespaceSnapshotView>::empty());
        snapshot
    }

    /// What is reported of a controller whose collection failed.
    pub fn fallback_snapshot(
        previous: &Vec<CachedDevice>,
        controller: &NvmeController,
    ) -> (snapshot: DeviceSnapshot)
        ensures
            snapshot@ == fallback(models_of(previous@), controller@),
    {
        let ghost models = models_of(previous@);
        let mut index: usize = 0;
        assert(models.take(0) =~= Seq::<CachedDeviceView>::empty());
        while index < previous.len()
            invariant
                index <= previous@.len(),
                models == models_of(previous@),
                first_named(models.take(index as int), controller@.name).is_none(),
            decreases previous@.len() - index,
        {
            proof {
                assert(models.take(index + 1).drop_last() =~= models.take(index as int));
                assert(models.take(index + 1).last() == previous@[index as int]@);
            }
            if previous[index].snapshot.device == controller.name {
                proof {
                    lemma_first_named_prefix(models, controller@.name, index + 1);
                }
                return inaccessible_copy(&previous[index].snapshot);
            }
            index += 1;
        }
        assert(models.take(index as int) =~= models);
        Self::minimal_snapshot(controller, false)
    }

    /// The command timeout for the SMART reads at start-up, given the
    /// controllers that discovery found: `NoReadableDevices` where it found
    /// none, `Parse` where the timeout does not fit the command block.
    pub fn startup_timeout(&self, controllers: &Vec<NvmeController>) -> (result: Result<
        u32,
        NvmeError,
    >)
        ensures
            controllers@.len() == 0 ==> result matches Err(NvmeError::NoReadableDevices),
            controllers@.len() > 0 && self@.config.ioctl_timeout > u32::MAX ==> result matches Err(
                NvmeError::Parse(_),
            ),
            controllers@.len() > 0 && self@.config.ioctl_timeout <= u32::MAX ==> result == Ok::<
                u32,
                NvmeError,
            >(self@.config.ioctl_timeout as u32),
    {
        if controllers.len() == 0 {
            return Err(NvmeError::NoReadableDevices);
        }
        self.config.ioctl_timeout_ms()
    }

    /// Judges the SMART reads at start-up, one for each controller: the
    /// exporter may start where at least one of them shows a readable
    /// controller, otherwise there are `NoReadableDevices`.
    pub fn validate_startup_devices(pages: &Vec<Result<Vec<u8>, NvmeError>>) -> (result: Result<
        (),
        NvmeError,
    >)
        ensures
            (exists|i: int| 0 <= i < pages@.len() && readable(#[trigger] pages@[i]))
                ==> result.is_ok(),
            !(exists|i: int| 0 <= i < pages@.len() && readable(#[trigger] pages@[i]))
                ==> result matches Err(NvmeError::NoReadableDevices),
    {
        let mut count: usize = 0;
        let mut index: usize = 0;
        while index < pages.len()
            invariant
                index <= pages@.len(),
                count <= index,
                count > 0 <==> exists|i: int| 0 <= i < index && readable(#[trigger] pages@[i]),
            decreases pages@.len() - index,
        {
            match &pages[index] {
                Ok(bytes) => {
                    if SmartLog::parse(bytes.as_slice()).is_ok() {
                        assert(readable(pages@[index as int]));
                        count += 1;
                    }
                },
                Err(_) => {},
            }
            index += 1;
        }
        if count == 0 {
            return Err(NvmeError::NoReadableDevices);
        }
        Ok(())
    }

    /// Puts the snapshots of a scrape among the remembered devices, drops
    /// the devices that are gone for longer than the grace period, and
    /// returns the snapshots of those that remain, in ascending order of
    /// their names and none twice. A device that is not among the discovered
    /// is reported as not accessible.
    pub fn merge_device_state(
        &mut self,
        now: u64,
        discovered_names: &Vec<String>,
        collected_devices: Vec<DeviceSnapshot>,
    ) -> (snapshots: Vec<DeviceSnapshot>)
        ensures
            final(self)@ == (NvmeCollectorView {
                devices: merged(
                    old(self)@.devices,
                    device_views(collected_devices@),
                    texts(discovered_names@),
                    now,
                    old(self)@.config.stale_device_grace,
                ),
                ..old(self)@
            }),
            device_views(snapshots@) == snapshots_of(final(self)@.devices),
            strictly_ordered::<CachedDevice>(final(self)@.devices),
            forall|i: int, j: int|
                0 <= i < j < snapshots@.len() ==> name_lt(
                    (#[trigger] snapshots@[i]).device@,
                    (#[trigger] snapshots@[j]).device@,
                ) && snapshots@[i].device@ != snapshots@[j].device@,
    {
        let ghost cache = models_of(self.devices@);
        let ghost collected = device_views(collected_devices@);
        let ghost discovered = texts(discovered_names@);
        let grace = self.config.stale_device_grace;
        let mut filling = self.load_previous_devices();
        assert(collected.take(0) =~= Seq::<DeviceSnapshotView>::empty());
        for snapshot in it: collected_devices
            invariant
                collected == device_views(it.seq()),
                models_of(filling@) == with_collected(
                    cache,
                    collected.take(it.index() as int),
                    now,
                ),
        {
            proof {
                assert(collected.take(it.index() + 1).drop_last() =~= collected.take(
                    it.index() as int,
                ));
                assert(collected.take(it.index() + 1).last() == snapshot@);
            }
            upsert_by_name(&mut filling, CachedDevice { snapshot, last_seen: now });
        }
        assert(collected.take(collected.len() as int) =~= collected);
        let ghost filled = models_of(filling@);
        let mut remaining: Vec<CachedDevice> = Vec::new();
        let mut snapshots: Vec<DeviceSnapshot> = Vec::new();
        assert(filled.take(0) =~= Seq::<CachedDeviceView>::empty());
        assert(models_of(remaining@) =~= swept(filled.take(0), discovered, now, grace));
        assert(device_views(snapshots@) =~= snapshots_of(models_of(remaining@)));
        for entry in it: filling
            invariant
                filled == models_of(it.seq()),
                discovered == texts(discovered_names@),
                models_of(remaining@) == swept(
                    filled.take(it.index() as int),
                    discovered,
                    now,
                    grace,
                ),
                device_views(snapshots@) == snapshots_of(models_of(remaining@)),
        {
            proof {
                assert(filled.take(it.index() + 1).drop_last() =~= filled.take(it.index() as int));
                assert(filled.take(it.index() + 1).last() == entry@);
            }
            let mut entry = entry;
            let present = contains_name(discovered_names, &entry.snapshot.device);
            let recent = now.saturating_sub(entry.last_seen) as u128 <= grace as u128
                * NANOS_PER_SECOND;
            if present || recent {
                if !present {
                    entry.snapshot.accessible = false;
                }
                let ghost before = models_of(remaining@);
                let ghost listed = device_views(snapshots@);
                let copy = entry.snapshot.clone();
                snapshots.push(copy);
                remaining.push(entry);
                assert(models_of(remaining@) =~= before.push(entry@));
                assert(device_views(snapshots@) =~= listed.push(copy@));
                assert(snapshots_of(before.push(entry@)) =~= snapshots_of(before).push(
                    entry@.snapshot,
                ));
            }
        }
        assert(filled.take(filled.len() as int) =~= filled);
        proof {
            lemma_merged_snapshots_ordered(cache, collected, discovered, now, grace);
            let listed = snapshots_of(models_of(remaining@));
            assert forall|i: int, j: int| 0 <= i < j < snapshots@.len() implies name_lt(
                (#[trigger] snapshots@[i]).device@,
                (#[trigger] snapshots@[j]).device@,
            ) && snapshots@[i].device@ != snapshots@[j].device@ by {
                assert(device_views(snapshots@)[i] == listed[i]);
                assert(device_views(snapshots@)[j] == listed[j]);
            }
        }
        self.devices = remaining;
        snapshots
    }

    /// Puts a scrape together: every collection contributes its snapshot,
    /// or the fallback where it failed; the remembered devices are merged
    /// with them; and the report says whether every collection succeeded.
    /// `previous` is what the collector remembered when the collections
    /// began.
    pub fn scrape(
        &mut self,
        now: u64,
        duration_nanos: u128,
        previous: &Vec<CachedDevice>,
        outcomes: Vec<Collected>,
    ) -> (report: ScrapeReport)
        ensures
            report@ == scrape_report(
                old(self)@,
                now,
                duration_nanos,
                models_of(previous@),
                collected_views(outcomes@),
            ),
            final(self)@ == (NvmeCollectorView {
                devices: merged(
                    old(self)@.devices,
                    contributions(models_of(previous@), collected_views(outcomes@)),
                    controller_names(collected_views(outcomes@)),
                    now,
                    old(self)@.config.stale_device_grace,
                ),
                ..old(self)@
            }),
            strictly_ordered::<CachedDevice>(final(self)@.devices),
            forall|i: int, j: int|
                0 <= i < j < report.devices@.len() ==> name_lt(
                    (#[trigger] report.devices@[i]).device@,
                    (#[trigger] report.devices@[j]).device@,
                ) && report.devices@[i].device@ != report.devices@[j].device@,
    {
        let ghost views = collected_views(outcomes@);
        let ghost remembered = models_of(previous@);
        let discovered_device_count = outcomes.len();
        let mut success = true;
        let mut names: Vec<String> = Vec::new();
        let mut collected: Vec<DeviceSnapshot> = Vec::new();
        for item in it: outcomes
            invariant
                views == collected_views(it.seq()),
                remembered == models_of(previous@),
                success == all_succeeded(views.take(it.index() as int)),
                names@.len() == it.index(),
                collected@.len() == it.index(),
                forall|i: int|
                    0 <= i < it.index() ==> (#[trigger] names@[i])@ == views[i].controller.name,
                forall|i: int|
                    0 <= i < it.index() ==> (#[trigger] collected@[i])@ == contributed(
                        remembered,
                        views[i],
                    ),
        {
            let ghost done = views.take(it.index() as int);
            let ghost next = views.take(it.index() + 1);
            proof {
                assert(next[it.index() as int] == item@);
                assert forall|i: int| 0 <= i < done.len() implies done[i] == next[i] by {}
            }
            names.push(item.controller.name.clone());
            match item.outcome {
                Ok(snapshot) => {
                    collected.push(snapshot);
                    proof {
                        if all_succeeded(done) {
                            assert forall|i: int| 0 <= i < next.len() implies (
                            #[trigger] next[i]).snapshot.is_some() by {
                                if i < done.len() {
                                    assert(done[i].snapshot.is_some());
                                }
                            }
                        } else {
                            let bad = choose|i: int|
                                0 <= i < done.len() && !(#[trigger] done[i]).snapshot.is_some();
                            assert(!next[bad].snapshot.is_some());
                        }
                    }
                },
                Err(_) => {
                    success = false;
                    collected.push(Self::fallback_snapshot(previous, &item.controller));
                    assert(!next[it.index() as int].snapshot.is_some());
                },
            }
        }
        proof {
            assert(views.take(views.len() as int) =~= views);
            assert(texts(names@) =~= controller_names(views));
            assert(device_views(collected@) =~= contributions(remembered, views));
        }
        let devices = self.merge_device_state(now, &names, collected);
        ScrapeReport {
            duration_nanos,
            success,
            discovered_device_count,
            devices,
            collect_namespace: self.config.collect_namespace,
            collect_error_log: self.config.collect_error_log,
            collect_self_test: self.config.collect_self_test,
        }
    }
}

/// A copy of a list of controllers.
pub fn clone_controllers(controllers: &Vec<NvmeController>) -> (copy: Vec<NvmeController>)
    ensures
        models_of(copy@) == models_of(controllers@),
{
    let mut copy: Vec<NvmeController> = Vec::new();
    let mut index: usize = 0;
    while index < controllers.len()
        invariant
            index <= controllers@.len(),
            copy@.len() == index,
            forall|i: int| 0 <= i < index ==> (#[trigger] copy@[i])@ == controllers@[i]@,
        decreases controllers@.len() - index,
    {
        let controller = controllers[index].clone();
        copy.push(controller);
        index += 1;
    }
    assert(models_of(copy@) =~= models_of(controllers@));
    copy
}

/// The first device of a name in a list is also the first of that name in
/// every longer list that the list begins.
pub proof fn lemma_first_named_prefix(models: Seq<CachedDeviceView>, name: Seq<char>, upto: int)
    requires
        0 <= upto <= models.len(),
        first_named(models.take(upto), name).is_some(),
    ensures
        first_named(models, name) == first_named(models.take(upto), name),
    decreases models.len() - upto,
{
    if upto < models.len() {
        assert(models.take(upto + 1).drop_last() =~= models.take(upto));
        lemma_first_named_prefix(models, name, upto + 1);
    } else {
        assert(models.take(upto) =~= models);
    }
}

/// Every remembered device after snapshots were put in is one of the
/// snapshots, as seen at `now`, or a device remembered before whose name is
/// that of no snapshot; and the names still ascend.
pub proof fn lemma_with_collected(
    cache: Seq<CachedDeviceView>,
    collected: Seq<DeviceSnapshotView>,
    now: u64,
)
    requires
        strictly_ordered::<CachedDevice>(cache),
    ensures
        strictly_ordered::<CachedDevice>(with_collected(cache, collected, now)),
        forall|i: int|
            0 <= i < with_collected(cache, collected, now).len() ==> {
                let entry = #[trigger] with_collected(cache, collected, now)[i];
                (entry.last_seen == now && collected.contains(entry.snapshot)) || (cache.contains(
                    entry,
                ) && forall|j: int|
                    0 <= j < collected.len() ==> (#[trigger] collected[j]).device
                        != entry.snapshot.device)
            },
        forall|i: int|
            0 <= i < cache.len() && (forall|j: int|
                0 <= j < collected.len() ==> (#[trigger] collected[j]).device
                    != cache[i].snapshot.device) ==> with_collected(cache, collected, now).contains(
                #[trigger] cache[i],
            ),
    decreases collected.len(),
{
    if collected.len() > 0 {
        let front = collected.drop_last();
        let before = with_collected(cache, front, now);
        let item = CachedDeviceView { snapshot: collected.last(), last_seen: now };
        let after = with_collected(cache, collected, now);
        lemma_with_collected(cache, front, now);
        lemma_upserted::<CachedDevice>(before, item);
        assert forall|i: int| 0 <= i < after.len() implies {
            let entry = #[trigger] after[i];
            (entry.last_seen == now && collected.contains(entry.snapshot)) || (cache.contains(entry)
                && forall|j: int|
                0 <= j < collected.len() ==> (#[trigger] collected[j]).device
                    != entry.snapshot.device)
        } by {
            let entry = after[i];
            if entry == item {
                assert(collected[collected.len() - 1] == entry.snapshot);
            } else {
                assert(before.contains(entry));
                let at = choose|at: int| 0 <= at < before.len() && before[at] == entry;
                assert(before[at] == entry);
                if entry.last_seen == now && front.contains(entry.snapshot) {
                    let from = choose|from: int|
                        0 <= from < front.len() && front[from] == entry.snapshot;
                    assert(collected[from] == entry.snapshot);
                } else {
                    assert forall|j: int| 0 <= j < collected.len() implies (
                    #[trigger] collected[j]).device != entry.snapshot.device by {
                        if j < front.len() {
                            assert(front[j] == collected[j]);
                        }
                    }
                }
            }
        }
        assert forall|i: int|
            0 <= i < cache.len() && (forall|j: int|
                0 <= j < collected.len() ==> (#[trigger] collected[j]).device
                    != cache[i].snapshot.device) implies after.contains(#[trigger] cache[i]) by {
            assert forall|j: int| 0 <= j < front.len() implies (#[trigger] front[j]).device
                != cache[i].snapshot.device by {
                assert(front[j] == collected[j]);
            }
            assert(before.contains(cache[i]));
            let at = choose|at: int| 0 <= at < before.len() && before[at] == cache[i];
            assert(collected[collected.len() - 1].device != cache[i].snapshot.device);
            assert(CachedDevice::name_of(before[at]) != CachedDevice::name_of(item));
        }
    }
}

/// Sweeping keeps the devices that stay, marked, in their order: the names
/// of what is left still ascend, each device left is the marked form of one
/// that stays, and every device that stays is left in its marked form.
pub proof fn lemma_swept(
    cache: Seq<CachedDeviceView>,
    discovered: Seq<Seq<char>>,
    now: u64,
    grace: u64,
)
    requires
        strictly_ordered::<CachedDevice>(cache),
    ensures
        strictly_ordered::<CachedDevice>(swept(cache, discovered, now, grace)),
        forall|j: int|
            0 <= j < swept(cache, discovered, now, grace).len() ==> exists|i: int|
                0 <= i < cache.len() && kept(#[trigger] cache[i], discovered, now, grace)
                    && #[trigger] swept(cache, discovered, now, grace)[j] == marked(
                    cache[i],
                    discovered,
                ),
        forall|i: int|
            0 <= i < cache.len() && kept(#[trigger] cache[i], discovered, now, grace) ==> swept(
                cache,
                discovered,
                now,
                grace,
            ).contains(marked(cache[i], discovered)),
    decreases cache.len(),
{
    if cache.len() > 0 {
        let front = cache.drop_last();
        let before = swept(front, discovered, now, grace);
        let after = swept(cache, discovered, now, grace);
        assert forall|i: int, j: int| 0 <= i < j < front.len() implies name_lt(
            CachedDevice::name_of(#[trigger] front[i]),
            CachedDevice::name_of(#[trigger] front[j]),
        ) by {
            assert(front[i] == cache[i] && front[j] == cache[j]);
        }
        lemma_swept(front, discovered, now, grace);
        assert forall|j: int| 0 <= j < after.len() implies exists|i: int|
            0 <= i < cache.len() && kept(#[trigger] cache[i], discovered, now, grace)
                && #[trigger] after[j] == marked(cache[i], discovered) by {
            if j < before.len() {
                assert(after[j] == before[j]);
                let i = choose|i: int|
                    0 <= i < front.len() && kept(#[trigger] front[i], discovered, now, grace)
                        && before[j] == marked(front[i], discovered);
                assert(cache[i] == front[i]);
            } else {
                assert(after[j] == marked(cache[cache.len() - 1], discovered));
            }
        }
        assert forall|i: int|
            0 <= i < cache.len() && kept(
                #[trigger] cache[i],
                discovered,
                now,
                grace,
            ) implies after.contains(marked(cache[i], discovered)) by {
            if i < front.len() {
                assert(front[i] == cache[i]);
                assert(before.contains(marked(cache[i], discovered)));
                let at = choose|at: int|
                    0 <= at < before.len() && before[at] == marked(cache[i], discovered);
                assert(after[at] == marked(cache[i], discovered));
            } else {
                assert(after[after.len() - 1] == marked(cache[i], discovered));
            }
        }
        assert forall|i: int, j: int| 0 <= i < j < after.len() implies name_lt(
            CachedDevice::name_of(#[trigger] after[i]),
            CachedDevice::name_of(#[trigger] after[j]),
        ) by {
            if j < before.len() {
                assert(after[i] == before[i] && after[j] == before[j]);
            } else {
                assert(after[i] == before[i]);
                let from = choose|from: int|
                    0 <= from < front.len() && kept(#[trigger] front[from], discovered, now, grace)
                        && before[i] == marked(front[from], discovered);
                assert(front[from] == cache[from]);
                assert(name_lt(
                    CachedDevice::name_of(cache[from]),
                    CachedDevice::name_of(cache[cache.len() - 1]),
                ));
            }
        }
    }
}

/// After every scrape the reported snapshots are in ascending order of
/// their device names, and no device name occurs twice.
pub proof fn lemma_merged_snapshots_ordered(
    cache: Seq<CachedDeviceView>,
    collected: Seq<DeviceSnapshotView>,
    discovered: Seq<Seq<char>>,
    now: u64,
    grace: u64,
)
    requires
        strictly_ordered::<CachedDevice>(cache),
    ensures
        strictly_ordered::<CachedDevice>(merged(cache, collected, discovered, now, grace)),
        forall|i: int, j: int|
            0 <= i < j < snapshots_of(merged(cache, collected, discovered, now, grace)).len()
                ==> name_lt(
                (#[trigger] snapshots_of(
                    merged(cache, collected, discovered, now, grace),
                )[i]).device,
                (#[trigger] snapshots_of(
                    merged(cache, collected, discovered, now, grace),
                )[j]).device,
            ),
        forall|i: int, j: int|
            0 <= i < j < snapshots_of(merged(cache, collected, discovered, now, grace)).len()
                ==> (#[trigger] snapshots_of(
                merged(cache, collected, discovered, now, grace),
            )[i]).device != (#[trigger] snapshots_of(
                merged(cache, collected, discovered, now, grace),
            )[j]).device,
{
    lemma_with_collected(cache, collected, now);
    lemma_swept(with_collected(cache, collected, now), discovered, now, grace);
    let after = merged(cache, collected, discovered, now, grace);
    let listed = snapshots_of(after);
    assert forall|i: int, j: int| 0 <= i < j < listed.len() implies name_lt(
        (#[trigger] listed[i]).device,
        (#[trigger] listed[j]).device,
    ) && listed[i].device != listed[j].device by {
        assert(name_lt(CachedDevice::name_of(after[i]), CachedDevice::name_of(after[j])));
        lemma_name_lt_irreflexive(listed[i].device);
    }
}

/// A device that was remembered, that the scrape neither discovered nor
/// collected, and that was last seen longer ago than the grace period, is
/// not remembered after the scrape and is in no snapshot of its report.
pub proof fn lemma_stale_device_evicted(
    cache: Seq<CachedDeviceView>,
    collected: Seq<DeviceSnapshotView>,
    discovered: Seq<Seq<char>>,
    now: u64,
    grace: u64,
    stale: int,
)
    requires
        strictly_ordered::<CachedDevice>(cache),
        0 <= stale < cache.len(),
        !discovered.contains(cache[stale].snapshot.device),
        forall|j: int|
            0 <= j < collected.len() ==> (#[trigger] collected[j]).device
                != cache[stale].snapshot.device,
        now - cache[stale].last_seen > grace * 1_000_000_000,
    ensures
        !has_name::<CachedDevice>(
            merged(cache, collected, discovered, now, grace),
            cache[stale].snapshot.device,
        ),
        forall|i: int|
            0 <= i < snapshots_of(merged(cache, collected, discovered, now, grace)).len()
                ==> (#[trigger] snapshots_of(
                merged(cache, collected, discovered, now, grace),
            )[i]).device != cache[stale].snapshot.device,
{
    let name = cache[stale].snapshot.device;
    let filled = with_collected(cache, collected, now);
    let after = merged(cache, collected, discovered, now, grace);
    lemma_with_collected(cache, collected, now);
    lemma_swept(filled, discovered, now, grace);
    assert forall|j: int| 0 <= j < after.len() implies (#[trigger] after[j]).snapshot.device
        != name by {
        let i = choose|i: int|
            0 <= i < filled.len() && kept(#[trigger] filled[i], discovered, now, grace) && after[j]
                == marked(filled[i], discovered);
        if filled[i].snapshot.device == name {
            lemma_named_once(filled, i, name, cache[stale]);
        }
    }
    assert forall|i: int| 0 <= i < snapshots_of(after).len() implies (#[trigger] snapshots_of(
        after,
    )[i]).device != name by {
        assert(after[i].snapshot.device != name);
    }
}

/// In a list of ascending names, a device that the list holds is the one
/// device of its name.
pub proof fn lemma_named_once(
    cache: Seq<CachedDeviceView>,
    index: int,
    name: Seq<char>,
    entry: CachedDeviceView,
)
    requires
        strictly_ordered::<CachedDevice>(cache),
        0 <= index < cache.len(),
        cache[index].snapshot.device == name,
        entry.snapshot.device == name,
        cache.contains(entry),
    ensures
        cache[index] == entry,
{
    let at = choose|at: int| 0 <= at < cache.len() && cache[at] == entry;
    lemma_name_lt_irreflexive(name);
    if at < index {
        assert(name_lt(CachedDevice::name_of(cache[at]), CachedDevice::name_of(cache[index])));
    } else if index < at {
        assert(name_lt(CachedDevice::name_of(cache[index]), CachedDevice::name_of(cache[at])));
    }
}

/// A device that was remembered, that the scrape neither discovered nor
/// collected, and that was last seen no longer ago than the grace period,
/// is still remembered after the scrape, and reported as not accessible.
pub proof fn lemma_stale_device_retained(
    cache: Seq<CachedDeviceView>,
    collected: Seq<DeviceSnapshotView>,
    discovered: Seq<Seq<char>>,
    now: u64,
    grace: u64,
    stale: int,
)
    requires
        strictly_ordered::<CachedDevice>(cache),
        0 <= stale < cache.len(),
        !discovered.contains(cache[stale].snapshot.device),
        forall|j: int|
            0 <= j < collected.len() ==> (#[trigger] collected[j]).device
                != cache[stale].snapshot.device,
        age(now, cache[stale].last_seen) <= grace * 1_000_000_000,
    ensures
        snapshots_of(merged(cache, collected, discovered, now, grace)).contains(
            inaccessible(cache[stale].snapshot),
        ),
{
    let filled = with_collected(cache, collected, now);
    let after = merged(cache, collected, discovered, now, grace);
    lemma_with_collected(cache, collected, now);
    lemma_swept(filled, discovered, now, grace);
    assert(filled.contains(cache[stale]));
    let at = choose|at: int| 0 <= at < filled.len() && filled[at] == cache[stale];
    assert(kept(filled[at], discovered, now, grace));
    assert(after.contains(marked(filled[at], discovered)));
    let place = choose|place: int|
        0 <= place < after.len() && after[place] == marked(filled[at], discovered);
    assert(snapshots_of(after)[place] == inaccessible(cache[stale].snapshot));
}

/// The first device of a name, where there is one, is a device of the list
/// and goes by that name.
pub proof fn lemma_first_named(previous: Seq<CachedDeviceView>, name: Seq<char>)
    ensures
        first_named(previous, name) matches Some(index) ==> 0 <= index < previous.len()
            && previous[index].snapshot.device == name,
    decreases previous.len(),
{
    if previous.len() > 0 {
        lemma_first_named(previous.drop_last(), name);
        match first_named(previous.drop_last(), name) {
            Some(index) => {
                assert(previous.drop_last()[index] == previous[index]);
            },
            None => {},
        }
    }
}

/// Whether every collection that succeeded reports its device under the
/// name of its controller.
pub open spec fn named_after_controllers(outcomes: Seq<CollectedView>) -> bool {
    forall|i: int|
        0 <= i < outcomes.len() ==> ((#[trigger] outcomes[i]).snapshot matches Some(snapshot)
            ==> snapshot.device == outcomes[i].controller.name)
}

/// A device that was remembered, that is not among the controllers of a
/// scrape, and that was last seen longer ago than the grace period, is in
/// no snapshot of the report of that scrape.
pub proof fn lemma_scrape_excludes_stale(
    collector: NvmeCollectorView,
    now: u64,
    duration_nanos: u128,
    previous: Seq<CachedDeviceView>,
    outcomes: Seq<CollectedView>,
    stale: int,
)
    requires
        strictly_ordered::<CachedDevice>(collector.devices),
        named_after_controllers(outcomes),
        0 <= stale < collector.devices.len(),
        !controller_names(outcomes).contains(collector.devices[stale].snapshot.device),
        now - collector.devices[stale].last_seen > collector.config.stale_device_grace
            * 1_000_000_000,
    ensures
        forall|i: int|
            0 <= i < scrape_report(collector, now, duration_nanos, previous, outcomes).devices.len()
                ==> (#[trigger] scrape_report(
                collector,
                now,
                duration_nanos,
                previous,
                outcomes,
            ).devices[i]).device != collector.devices[stale].snapshot.device,
{
    let name = collector.devices[stale].snapshot.device;
    let collected = contributions(previous, outcomes);
    let names = controller_names(outcomes);
    assert forall|j: int| 0 <= j < collected.len() implies (#[trigger] collected[j]).device
        != name by {
        assert(names[j] == outcomes[j].controller.name);
        assert(collected[j] == contributed(previous, outcomes[j]));
        lemma_first_named(previous, outcomes[j].controller.name);
        assert(collected[j].device == outcomes[j].controller.name);
    }
    lemma_stale_device_evicted(
        collector.devices,
        collected,
        names,
        now,
        collector.config.stale_device_grace,
        stale,
    );
}

} // verus!
