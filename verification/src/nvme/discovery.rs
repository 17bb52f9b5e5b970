//! Which entries of sysfs and devfs are NVMe controllers, and what is known
//! of them before any command is sent.
//!
//! The caller lists `/sys/class/nvme` (and, where that yields nothing, the
//! device nodes under `/dev`) and hands the listings over; the functions here
//! pick the controllers, read their attributes and namespaces, and put them
//! in order.

use vstd::prelude::*;
use vstd::string::StringExecFns;
use crate::nvme::error::NvmeError;
use crate::ordered::{
    lemma_sorted_by_name, lemma_upserted, models_of, ordered, sort_by_name, sorted_by_name,
    strictly_ordered, upsert_by_name, upserted, Named,
};
use crate::nvme::text::{chars_of, optional_text, texts, trimmed};

verus! {

/// `glob::Pattern`, a compiled glob pattern.
#[verifier::external_type_specification]
#[verifier::external_body]
pub struct ExPattern(glob::Pattern);

/// `glob::PatternError`, the reason why a pattern did not compile.
#[verifier::external_type_specification]
#[verifier::external_body]
pub struct ExPatternError(glob::PatternError);

/// The text that a compiled pattern was made from.
pub uninterp spec fn pattern_source(pattern: glob::Pattern) -> Seq<char>;

/// Whether `pattern` follows the syntax of glob patterns, that is, whether
/// `glob::Pattern::new` accepts it.
pub uninterp spec fn glob_valid(pattern: Seq<char>) -> bool;

/// Whether the glob pattern `pattern` matches `text` as a whole under the
/// default match options, as `glob::Pattern::matches` decides it on Unix,
/// where `/` is the one path separator.
pub uninterp spec fn glob_matches(pattern: Seq<char>, text: Seq<char>) -> bool;

/// `glob::Pattern::new` compiles a pattern: it succeeds exactly on valid
/// patterns, and the compiled pattern keeps the text it was made from.
#[verifier::external_body]
fn compile_pattern(source: &str) -> (result: Result<glob::Pattern, glob::PatternError>)
    ensures
        result.is_ok() == glob_valid(source@),
        result matches Ok(pattern) ==> pattern_source(pattern) == source@,
{
    glob::Pattern::new(source)
}

/// `glob::Pattern::matches` walks the tokens that the pattern's text was
/// compiled to along the given text; nothing else enters its answer.
pub assume_specification[ glob::Pattern::matches ](pattern: &glob::Pattern, text: &str) -> (found:
    bool)
    ensures
        found == glob_matches(pattern_source(*pattern), text@),
;

/// The text of the error for a device pattern that does not compile: a
/// fixed start, then what the pattern error displays.
fn pattern_error_message(error: &glob::PatternError) -> (message: String)
    ensures
        message@.len() >= 24,
        message@.take(24) == "invalid device pattern: "@,
{
    let mut message = "invalid device pattern: ".to_owned();
    proof {
        reveal_strlit("invalid device pattern: ");
    }
    let shown = error.to_string();
    message.append(shown.as_str());
    assert(message@.take(24) =~= "invalid device pattern: "@);
    message
}

/// A namespace of a controller, as sysfs lists it.
#[derive(Debug)]
pub struct NvmeNamespace {
    pub name: String,
    pub nsid: u32,
}

/// The model of an `NvmeNamespace`.
pub struct NvmeNamespaceView {
    pub name: Seq<char>,
    pub nsid: u32,
}

impl View for NvmeNamespace {
    type V = NvmeNamespaceView;

    open spec fn view(&self) -> NvmeNamespaceView {
        NvmeNamespaceView { name: self.name@, nsid: self.nsid }
    }
}

impl Clone for NvmeNamespace {
    fn clone(&self) -> (copy: Self)
        ensures
            copy@ == self@,
    {
        NvmeNamespace { name: self.name.clone(), nsid: self.nsid }
    }
}

impl Named for NvmeNamespace {
    open spec fn name_of(model: NvmeNamespaceView) -> Seq<char> {
        model.name
    }

    fn name(&self) -> (name: &String) {
        &self.name
    }
}

/// A controller, as discovery found it.
#[derive(Debug)]
pub struct NvmeController {
    /// The name of the controller, such as `nvme0`.
    pub name: String,
    /// The path of its character device.
    pub dev_path: String,
    pub model: Option<String>,
    pub serial: Option<String>,
    pub firmware: Option<String>,
    /// Its namespaces, in the order of their names.
    pub namespaces: Vec<NvmeNamespace>,
}

/// The model of an `NvmeController`.
pub struct NvmeControllerView {
    pub name: Seq<char>,
    pub dev_path: Seq<char>,
    pub model: Option<Seq<char>>,
    pub serial: Option<Seq<char>>,
    pub firmware: Option<Seq<char>>,
    pub namespaces: Seq<NvmeNamespaceView>,
}

impl View for NvmeController {
    type V = NvmeControllerView;

    open spec fn view(&self) -> NvmeControllerView {
        NvmeControllerView {
            name: self.name@,
            dev_path: self.dev_path@,
            model: optional_text(self.model),
            serial: optional_text(self.serial),
            firmware: optional_text(self.firmware),
            namespaces: models_of(self.namespaces@),
        }
    }
}

impl Named for NvmeController {
    open spec fn name_of(model: NvmeControllerView) -> Seq<char> {
        model.name
    }

    fn name(&self) -> (name: &String) {
        &self.name
    }
}

/// A copy of a string that may be missing.
pub fn clone_optional_text(text: &Option<String>) -> (copy: Option<String>)
    ensures
        optional_text(copy) == optional_text(*text),
{
    match text {
        Some(text) => Some(text.clone()),
        None => None,
    }
}

impl Clone for NvmeController {
    fn clone(&self) -> (copy: Self)
        ensures
            copy@ == self@,
    {
        let mut namespaces: Vec<NvmeNamespace> = Vec::new();
        let mut index: usize = 0;
        while index < self.namespaces.len()
            invariant
                index <= self.namespaces@.len(),
                namespaces@.len() == index,
                forall|i: int|
                    0 <= i < index ==> (#[trigger] namespaces@[i])@ == self.namespaces@[i]@,
            decreases self.namespaces@.len() - index,
        {
            let item = self.namespaces[index].clone();
            namespaces.push(item);
            index += 1;
        }
        assert(models_of(namespaces@) =~= models_of(self.namespaces@));
        NvmeController {
            name: self.name.clone(),
            dev_path: self.dev_path.clone(),
            model: clone_optional_text(&self.model),
            serial: clone_optional_text(&self.serial),
            firmware: clone_optional_text(&self.firmware),
            namespaces,
        }
    }
}

/// One entry of `/sys/class/nvme`: its name, what its attribute files hold
/// (`None` for a file that cannot be read), and the names of the entries
/// below it.
#[derive(Debug)]
pub struct SysfsEntry {
    pub name: String,
    pub model: Option<String>,
    pub serial: Option<String>,
    pub firmware_rev: Option<String>,
    pub children: Vec<String>,
}

/// The model of a `SysfsEntry`.
pub struct SysfsEntryView {
    pub name: Seq<char>,
    pub model: Option<Seq<char>>,
    pub serial: Option<Seq<char>>,
    pub firmware_rev: Option<Seq<char>>,
    pub children: Seq<Seq<char>>,
}

impl View for SysfsEntry {
    type V = SysfsEntryView;

    open spec fn view(&self) -> SysfsEntryView {
        SysfsEntryView {
            name: self.name@,
            model: optional_text(self.model),
            serial: optional_text(self.serial),
            firmware_rev: optional_text(self.firmware_rev),
            children: texts(self.children@),
        }
    }
}

/// One device node that matches `/dev/nvme[0-9]*`: its path, and the last
/// component of the path where it has one.
#[derive(Debug)]
pub struct DevfsEntry {
    pub path: String,
    pub file_name: Option<String>,
}

/// The model of a `DevfsEntry`.
pub struct DevfsEntryView {
    pub path: Seq<char>,
    pub file_name: Option<Seq<char>>,
}

impl View for DevfsEntry {
    type V = DevfsEntryView;

    open spec fn view(&self) -> DevfsEntryView {
        DevfsEntryView { path: self.path@, file_name: optional_text(self.file_name) }
    }
}

/// The models of a list of sysfs entries.
pub open spec fn sysfs_views(entries: Seq<SysfsEntry>) -> Seq<SysfsEntryView> {
    entries.map_values(|entry: SysfsEntry| entry@)
}

/// The models of a list of devfs entries.
pub open spec fn devfs_views(entries: Seq<DevfsEntry>) -> Seq<DevfsEntryView> {
    entries.map_values(|entry: DevfsEntry| entry@)
}

/// Whether `c` is one of the ten ASCII digits.
pub open spec fn is_digit(c: char) -> bool {
    '0' <= c && c <= '9'
}

/// The four characters that every controller name starts with.
pub open spec fn controller_prefix() -> Seq<char> {
    seq!['n', 'v', 'm', 'e']
}

/// Whether `value` names a controller: `nvme`, then one digit or more, and
/// nothing else.
pub open spec fn controller_name(value: Seq<char>) -> bool {
    &&& value.len() > 4
    &&& value.take(4) == controller_prefix()
    &&& forall|i: int| 4 <= i < value.len() ==> is_digit(#[trigger] value[i])
}

/// The end of the run of digits that starts at `from`.
pub open spec fn digits_end(text: Seq<char>, from: int) -> int
    decreases text.len() - from,
{
    if 0 <= from < text.len() && is_digit(text[from]) {
        digits_end(text, from + 1)
    } else {
        from
    }
}

/// The number that a run of digits spells in base ten.
pub open spec fn decimal_value(digits: Seq<char>) -> nat
    decreases digits.len(),
{
    if digits.len() == 0 {
        0
    } else {
        decimal_value(digits.drop_last()) * 10 + (digits.last() as u32 - '0' as u32) as nat
    }
}

/// The namespace identifier that the name of an entry below a controller
/// stands for: the name is the controller's name, an `n`, and a number of at
/// least one digit that fits 32 bits; whatever follows the digits is
/// ignored.
pub open spec fn namespace_id(controller: Seq<char>, namespace: Seq<char>) -> Option<u32> {
    let prefix = controller.push('n');
    if namespace.len() >= prefix.len() && namespace.take(prefix.len() as int) == prefix {
        let end = digits_end(namespace, prefix.len() as int);
        let value = decimal_value(namespace.subrange(prefix.len() as int, end));
        if end > prefix.len() && value <= u32::MAX {
            Some(value as u32)
        } else {
            None
        }
    } else {
        None
    }
}

/// The value of an attribute file: its contents without the whitespace
/// around them, or nothing where the file is missing or holds nothing else.
pub open spec fn attribute(contents: Option<Seq<char>>) -> Option<Seq<char>> {
    match contents {
        Some(text) => if trimmed(text).len() == 0 {
            None
        } else {
            Some(trimmed(text))
        },
        None => None,
    }
}

/// The path of the device node of the controller `name`.
pub open spec fn device_path(name: Seq<char>) -> Seq<char> {
    seq!['/', 'd', 'e', 'v', '/'] + name
}

/// Whether the entry `name` is a controller that the device pattern lets
/// through.
pub open spec fn accepted(pattern: Seq<char>, name: Seq<char>) -> bool {
    controller_name(name) && glob_matches(pattern, device_path(name))
}

/// The namespaces among the entries below a controller, in the order of the
/// listing.
pub open spec fn namespaces_found(controller: Seq<char>, children: Seq<Seq<char>>) -> Seq<
    NvmeNamespaceView,
>
    decreases children.len(),
{
    if children.len() == 0 {
        Seq::empty()
    } else {
        let before = namespaces_found(controller, children.drop_last());
        match namespace_id(controller, children.last()) {
            Some(nsid) => before.push(NvmeNamespaceView { name: children.last(), nsid }),
            None => before,
        }
    }
}

/// The controller that a sysfs entry describes.
pub open spec fn sysfs_controller(entry: SysfsEntryView) -> NvmeControllerView {
    NvmeControllerView {
        name: entry.name,
        dev_path: device_path(entry.name),
        model: attribute(entry.model),
        serial: attribute(entry.serial),
        firmware: attribute(entry.firmware_rev),
        namespaces: sorted_by_name::<NvmeNamespace>(namespaces_found(entry.name, entry.children)),
    }
}

/// The controllers among the entries of sysfs, in the order of the listing.
pub open spec fn sysfs_controllers(pattern: Seq<char>, entries: Seq<SysfsEntryView>) -> Seq<
    NvmeControllerView,
>
    decreases entries.len(),
{
    if entries.len() == 0 {
        Seq::empty()
    } else {
        let before = sysfs_controllers(pattern, entries.drop_last());
        if accepted(pattern, entries.last().name) {
            before.push(sysfs_controller(entries.last()))
        } else {
            before
        }
    }
}

/// The controller that a device node stands for: nothing is known of it but
/// its name and path.
pub open spec fn devfs_controller(name: Seq<char>, path: Seq<char>) -> NvmeControllerView {
    NvmeControllerView {
        name,
        dev_path: path,
        model: None,
        serial: None,
        firmware: None,
        namespaces: Seq::empty(),
    }
}

/// The controllers among the device nodes, in the order of their names. A
/// node counts where the pattern matches its path and its last component
/// names a controller; of two nodes with one name the later stays.
pub open spec fn devfs_controllers(pattern: Seq<char>, entries: Seq<DevfsEntryView>) -> Seq<
    NvmeControllerView,
>
    decreases entries.len(),
{
    if entries.len() == 0 {
        Seq::empty()
    } else {
        let before = devfs_controllers(pattern, entries.drop_last());
        match entries.last().file_name {
            Some(name) => if glob_matches(pattern, entries.last().path) && controller_name(name) {
                upserted::<NvmeController>(before, devfs_controller(name, entries.last().path))
            } else {
                before
            },
            None => before,
        }
    }
}

/// What discovery yields: the controllers of sysfs, or those among the
/// device nodes where sysfs has none, in the order of their names.
pub open spec fn discovered(
    pattern: Seq<char>,
    sysfs: Seq<SysfsEntryView>,
    devfs: Seq<DevfsEntryView>,
) -> Seq<NvmeControllerView> {
    if sysfs_controllers(pattern, sysfs).len() > 0 {
        sorted_by_name::<NvmeController>(sysfs_controllers(pattern, sysfs))
    } else {
        sorted_by_name::<NvmeController>(devfs_controllers(pattern, devfs))
    }
}

/// Whether `c` is one of the ten ASCII digits.
fn is_ascii_digit(c: char) -> (digit: bool)
    ensures
        digit == is_digit(c),
{
    '0' <= c && c <= '9'
}

/// Whether `value` names a controller: `nvme`, then one digit or more, and
/// nothing else.
pub fn is_controller_name(value: &str) -> (matches: bool)
    ensures
        matches == controller_name(value@),
{
    let chars = chars_of(value);
    if chars.len() <= 4 {
        return false;
    }
    if chars[0] != 'n' || chars[1] != 'v' || chars[2] != 'm' || chars[3] != 'e' {
        assert(value@.take(4)[0] == value@[0] && value@.take(4)[1] == value@[1] && value@.take(
            4,
        )[2] == value@[2] && value@.take(4)[3] == value@[3]);
        return false;
    }
    assert(value@.take(4) =~= controller_prefix());
    let mut index: usize = 4;
    while index < chars.len()
        invariant
            4 <= index <= chars@.len(),
            chars@ == value@,
            forall|i: int| 4 <= i < index ==> is_digit(#[trigger] value@[i]),
        decreases chars@.len() - index,
    {
        if !is_ascii_digit(chars[index]) {
            return false;
        }
        index += 1;
    }
    true
}

/// The namespace identifier that the name of an entry below a controller
/// stands for, or `None` where the name is not that of a namespace of the
/// controller.
pub fn parse_namespace_name(controller_name: &str, namespace_name: &str) -> (nsid: Option<u32>)
    ensures
        nsid == namespace_id(controller_name@, namespace_name@),
{
    let controller = chars_of(controller_name);
    let namespace = chars_of(namespace_name);
    let ghost prefix = controller_name@.push('n');
    if namespace.len() <= controller.len() {
        assert(namespace@.len() < prefix.len());
        return None;
    }
    let mut index: usize = 0;
    while index < controller.len()
        invariant
            index <= controller@.len() < namespace@.len(),
            controller@ == controller_name@,
            namespace@ == namespace_name@,
            prefix == controller_name@.push('n'),
            forall|i: int| 0 <= i < index ==> #[trigger] namespace@[i] == controller@[i],
        decreases controller@.len() - index,
    {
        if controller[index] != namespace[index] {
            assert(namespace@.take(prefix.len() as int)[index as int] != prefix[index as int]);
            return None;
        }
        index += 1;
    }
    if namespace[index] != 'n' {
        assert(namespace@.take(prefix.len() as int)[index as int] != prefix[index as int]);
        return None;
    }
    assert(namespace@.take(prefix.len() as int) =~= prefix);
    let start: usize = index + 1;
    let mut end: usize = start;
    let mut value: u64 = 0;
    let mut too_large = false;
    assert(namespace@.subrange(start as int, end as int) =~= Seq::<char>::empty());
    while end < namespace.len() && is_ascii_digit(namespace[end])
        invariant
            start <= end <= namespace@.len(),
            namespace@ == namespace_name@,
            digits_end(namespace@, start as int) == digits_end(namespace@, end as int),
            !too_large ==> value == decimal_value(namespace@.subrange(start as int, end as int))
                && value <= u32::MAX,
            too_large ==> decimal_value(namespace@.subrange(start as int, end as int))
                > u32::MAX,
        decreases namespace@.len() - end,
    {
        let digit: u64 = (namespace[end] as u32 - '0' as u32) as u64;
        proof {
            let longer = namespace@.subrange(start as int, end + 1);
            assert(longer.drop_last() =~= namespace@.subrange(start as int, end as int));
            assert(longer.last() == namespace@[end as int]);
        }
        if !too_large {
            value = value * 10 + digit;
            if value > 0xFFFF_FFFF {
                too_large = true;
            }
        }
        end += 1;
    }
    if end == start || too_large {
        None
    } else {
        Some(value as u32)
    }
}

/// The value of an attribute file, given its contents.
pub fn read_attr(contents: &Option<String>) -> (value: Option<String>)
    ensures
        optional_text(value) == attribute(optional_text(*contents)),
{
    match contents {
        Some(text) => {
            let inner = text.as_str().trim();
            if inner.is_empty() {
                None
            } else {
                Some(inner.to_owned())
            }
        },
        None => None,
    }
}

/// The namespaces among the entries below a controller, in the order of the
/// listing.
pub fn discover_namespaces(controller_name: &str, children: &Vec<String>) -> (namespaces: Vec<
    NvmeNamespace,
>)
    ensures
        models_of(namespaces@) == namespaces_found(controller_name@, texts(children@)),
{
    let ghost names = texts(children@);
    let mut namespaces: Vec<NvmeNamespace> = Vec::new();
    let mut index: usize = 0;
    assert(models_of(namespaces@) =~= namespaces_found(controller_name@, names.take(0)));
    while index < children.len()
        invariant
            index <= children@.len(),
            names == texts(children@),
            models_of(namespaces@) == namespaces_found(
                controller_name@,
                names.take(index as int),
            ),
        decreases children@.len() - index,
    {
        let child = &children[index];
        proof {
            assert(names.take(index + 1).drop_last() =~= names.take(index as int));
            assert(names.take(index + 1).last() == child@);
        }
        match parse_namespace_name(controller_name, child.as_str()) {
            Some(nsid) => {
                let namespace = NvmeNamespace { name: child.clone(), nsid };
                assert(models_of(namespaces@.push(namespace)) =~= models_of(namespaces@).push(
                    namespace@,
                ));
                namespaces.push(namespace);
            },
            None => {},
        }
        index += 1;
    }
    assert(names.take(index as int) =~= names);
    namespaces
}

/// The path of the device node of the controller `name`.
fn device_path_of(name: &str) -> (path: String)
    ensures
        path@ == device_path(name@),
{
    let mut path = "/dev/".to_owned();
    proof {
        reveal_strlit("/dev/");
        assert("/dev/"@ =~= seq!['/', 'd', 'e', 'v', '/']);
    }
    path.append(name);
    path
}

/// Whether the entry `name` is a controller that the device pattern lets
/// through.
pub fn accepts_controller(pattern: &glob::Pattern, name: &str) -> (accepts: bool)
    ensures
        accepts == accepted(pattern_source(*pattern), name@),
{
    if !is_controller_name(name) {
        return false;
    }
    let path = device_path_of(name);
    pattern.matches(path.as_str())
}

/// The controllers among the entries of sysfs, in the order of the listing,
/// each with its attributes and its namespaces in the order of their names.
pub fn discover_from_sysfs(pattern: &glob::Pattern, entries: &Vec<SysfsEntry>) -> (controllers:
    Vec<NvmeController>)
    ensures
        models_of(controllers@) == sysfs_controllers(
            pattern_source(*pattern),
            sysfs_views(entries@),
        ),
{
    let ghost source = pattern_source(*pattern);
    let ghost views = sysfs_views(entries@);
    let mut controllers: Vec<NvmeController> = Vec::new();
    let mut index: usize = 0;
    assert(models_of(controllers@) =~= sysfs_controllers(source, views.take(0)));
    while index < entries.len()
        invariant
            index <= entries@.len(),
            source == pattern_source(*pattern),
            views == sysfs_views(entries@),
            models_of(controllers@) == sysfs_controllers(source, views.take(index as int)),
        decreases entries@.len() - index,
    {
        let entry = &entries[index];
        proof {
            assert(views.take(index + 1).drop_last() =~= views.take(index as int));
            assert(views.take(index + 1).last() == entry@);
        }
        if accepts_controller(pattern, entry.name.as_str()) {
            let found = discover_namespaces(entry.name.as_str(), &entry.children);
            let controller = NvmeController {
                name: entry.name.clone(),
                dev_path: device_path_of(entry.name.as_str()),
                model: read_attr(&entry.model),
                serial: read_attr(&entry.serial),
                firmware: read_attr(&entry.firmware_rev),
                namespaces: sort_by_name(found),
            };
            assert(controller@ == sysfs_controller(entry@));
            assert(models_of(controllers@.push(controller)) =~= models_of(controllers@).push(
                controller@,
            ));
            controllers.push(controller);
        }
        index += 1;
    }
    assert(views.take(index as int) =~= views);
    controllers
}

/// Whether the device nodes have to be listed: sysfs yields no controller
/// that the device pattern lets through.
pub fn needs_device_nodes(pattern: &glob::Pattern, sysfs: &Vec<SysfsEntry>) -> (needed: bool)
    ensures
        needed == (sysfs_controllers(pattern_source(*pattern), sysfs_views(sysfs@)).len() == 0),
{
    let ghost source = pattern_source(*pattern);
    let ghost views = sysfs_views(sysfs@);
    let mut index: usize = 0;
    assert(sysfs_controllers(source, views.take(0)).len() == 0);
    while index < sysfs.len()
        invariant
            index <= sysfs@.len(),
            source == pattern_source(*pattern),
            views == sysfs_views(sysfs@),
            sysfs_controllers(source, views.take(index as int)).len() == 0,
        decreases sysfs@.len() - index,
    {
        proof {
            assert(views.take(index + 1).drop_last() =~= views.take(index as int));
            assert(views.take(index + 1).last() == sysfs@[index as int]@);
        }
        if accepts_controller(pattern, sysfs[index].name.as_str()) {
            proof {
                lemma_sysfs_controllers_grow(source, views, index + 1);
            }
            return false;
        }
        index += 1;
    }
    assert(views.take(index as int) =~= views);
    true
}

/// The controllers among the device nodes, in the order of their names and
/// without any name twice.
pub fn discover_from_devfs(pattern: &glob::Pattern, entries: &Vec<DevfsEntry>) -> (controllers:
    Vec<NvmeController>)
    ensures
        models_of(controllers@) == devfs_controllers(
            pattern_source(*pattern),
            devfs_views(entries@),
        ),
{
    let ghost source = pattern_source(*pattern);
    let ghost views = devfs_views(entries@);
    let mut controllers: Vec<NvmeController> = Vec::new();
    let mut index: usize = 0;
    assert(models_of(controllers@) =~= devfs_controllers(source, views.take(0)));
    while index < entries.len()
        invariant
            index <= entries@.len(),
            source == pattern_source(*pattern),
            views == devfs_views(entries@),
            models_of(controllers@) == devfs_controllers(source, views.take(index as int)),
        decreases entries@.len() - index,
    {
        let entry = &entries[index];
        proof {
            assert(views.take(index + 1).drop_last() =~= views.take(index as int));
            assert(views.take(index + 1).last() == entry@);
        }
        if pattern.matches(entry.path.as_str()) {
            match &entry.file_name {
                Some(name) => {
                    if is_controller_name(name.as_str()) {
                        let controller = NvmeController {
                            name: name.clone(),
                            dev_path: entry.path.clone(),
                            model: None,
                            serial: None,
                            firmware: None,
                            namespaces: Vec::new(),
                        };
                        assert(models_of(controller.namespaces@) =~= Seq::<
                            NvmeNamespaceView,
                        >::empty());
                        upsert_by_name(&mut controllers, controller);
                    }
                },
                None => {},
            }
        }
        index += 1;
    }
    assert(views.take(index as int) =~= views);
    controllers
}

/// Compiles the device pattern, or says why it is no glob pattern.
pub fn compile_device_pattern(device_pattern: &str) -> (result: Result<glob::Pattern, NvmeError>)
    ensures
        glob_valid(device_pattern@) ==> (result matches Ok(pattern) && pattern_source(pattern)
            == device_pattern@),
        !glob_valid(device_pattern@) ==> result matches Err(NvmeError::Parse(_)),
{
    match compile_pattern(device_pattern) {
        Ok(pattern) => Ok(pattern),
        Err(error) => Err(NvmeError::Parse(pattern_error_message(&error))),
    }
}

/// The controllers of the machine, given the listing of sysfs and the device
/// nodes: those of sysfs that the device pattern lets through, or, where
/// there is none, those among the device nodes; in the order of their names.
/// A pattern that is no glob pattern is a `Parse` error.
pub fn discover_controllers(
    device_pattern: &str,
    sysfs: &Vec<SysfsEntry>,
    devfs: &Vec<DevfsEntry>,
) -> (result: Result<Vec<NvmeController>, NvmeError>)
    ensures
        glob_valid(device_pattern@) ==> (result matches Ok(controllers) && models_of(
            controllers@,
        ) == discovered(device_pattern@, sysfs_views(sysfs@), devfs_views(devfs@)) && ordered::<
            NvmeController,
        >(models_of(controllers@))),
        !glob_valid(device_pattern@) ==> result matches Err(NvmeError::Parse(_)),
{
    let pattern = compile_device_pattern(device_pattern)?;
    let mut controllers = discover_from_sysfs(&pattern, sysfs);
    if controllers.len() == 0 {
        controllers = discover_from_devfs(&pattern, devfs);
    }
    proof {
        lemma_sorted_by_name::<NvmeController>(models_of(controllers@));
    }
    Ok(sort_by_name(controllers))
}

/// A longer listing of sysfs yields at least as many controllers.
pub proof fn lemma_sysfs_controllers_grow(
    pattern: Seq<char>,
    entries: Seq<SysfsEntryView>,
    upto: int,
)
    requires
        0 <= upto <= entries.len(),
    ensures
        sysfs_controllers(pattern, entries.take(upto)).len() <= sysfs_controllers(
            pattern,
            entries,
        ).len(),
    decreases entries.len() - upto,
{
    if upto < entries.len() {
        assert(entries.take(upto + 1).drop_last() =~= entries.take(upto));
        lemma_sysfs_controllers_grow(pattern, entries, upto + 1);
    } else {
        assert(entries.take(upto) =~= entries);
    }
}

/// Every name made of `nvme` and one digit or more is a controller name, and
/// every controller name is made so.
pub proof fn lemma_controller_names(value: Seq<char>)
    ensures
        controller_name(value) <==> exists|digits: Seq<char>|
            #![trigger controller_prefix() + digits]
            digits.len() > 0 && (forall|i: int| 0 <= i < digits.len() ==> is_digit(digits[i]))
                && value == controller_prefix() + digits,
{
    if controller_name(value) {
        let digits = value.skip(4);
        assert(value =~= controller_prefix() + digits);
        assert forall|i: int| 0 <= i < digits.len() implies is_digit(digits[i]) by {
            assert(digits[i] == value[i + 4]);
        }
    }
    if exists|digits: Seq<char>|
        #![trigger controller_prefix() + digits]
        digits.len() > 0 && (forall|i: int| 0 <= i < digits.len() ==> is_digit(digits[i]))
            && value == controller_prefix() + digits {
        let digits = choose|digits: Seq<char>|
            #![trigger controller_prefix() + digits]
            digits.len() > 0 && (forall|i: int| 0 <= i < digits.len() ==> is_digit(digits[i]))
                && value == controller_prefix() + digits;
        assert(value.take(4) =~= controller_prefix());
        assert forall|i: int| 4 <= i < value.len() implies is_digit(#[trigger] value[i]) by {
            assert(value[i] == digits[i - 4]);
        }
    }
}

/// The device nodes yield controllers in ascending order of their names, and
/// no name twice.
pub proof fn lemma_devfs_controllers_ordered(pattern: Seq<char>, entries: Seq<DevfsEntryView>)
    ensures
        strictly_ordered::<NvmeController>(devfs_controllers(pattern, entries)),
    decreases entries.len(),
{
    if entries.len() > 0 {
        let before = devfs_controllers(pattern, entries.drop_last());
        lemma_devfs_controllers_ordered(pattern, entries.drop_last());
        match entries.last().file_name {
            Some(name) => {
                lemma_upserted::<NvmeController>(
                    before,
                    devfs_controller(name, entries.last().path),
                );
            },
            None => {},
        }
    }
}

} // verus!
