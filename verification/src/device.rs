//! The description of a storage device and of its mount points, and their
//! JSON shape.

use vstd::prelude::*;

verus! {

/// A place where a volume of the device is mounted.
#[allow(non_snake_case)]
#[derive(Debug, PartialEq)]
pub struct MountPoint {
    pub path: String,
    pub label: Option<String>,
    pub totalBytes: Option<u64>,
    pub availableBytes: Option<u64>,
}

/// What `lsblk` reports of one block device entry, as the text members of
/// its JSON object: each field holds the member's text where the member is
/// a JSON string, and `None` otherwise.
#[derive(Debug)]
pub struct LsblkEntry {
    pub mountpoint: Option<String>,
    pub label: Option<String>,
    pub partlabel: Option<String>,
}

/// The view of an optional text.
pub open spec fn opt_text(o: Option<String>) -> Option<Seq<char>> {
    match o {
        Some(s) => Some(s@),
        None => None,
    }
}

impl MountPoint {
    /// A mount point at `path`, with no label and no sizes.
    pub fn new(path: &str) -> (r: Self)
        ensures
            r.path@ == path@,
            r.label is None,
            r.totalBytes is None,
            r.availableBytes is None,
    {
        MountPoint { path: path.to_owned(), label: None, totalBytes: None, availableBytes: None }
    }

    /// The mount point that an `lsblk` entry describes: its path is the
    /// entry's mount point (empty where there is none), its label the
    /// filesystem label, or else the partition label.
    pub fn from_lsblk(entry: LsblkEntry) -> (r: Self)
        ensures
            r.path@ == match entry.mountpoint {
                Some(s) => s@,
                None => Seq::<char>::empty(),
            },
            opt_text(r.label) == if entry.label is Some {
                opt_text(entry.label)
            } else {
                opt_text(entry.partlabel)
            },
            r.totalBytes is None,
            r.availableBytes is None,
    {
        let path = match entry.mountpoint {
            Some(s) => s,
            None => String::new(),
        };
        let label = match entry.label {
            Some(l) => Some(l),
            None => entry.partlabel,
        };
        MountPoint { path, label, totalBytes: None, availableBytes: None }
    }
}

impl Default for MountPoint {
    fn default() -> (r: Self)
        ensures
            r.path@ == Seq::<char>::empty(),
            r.label is None,
            r.totalBytes is None,
            r.availableBytes is None,
    {
        MountPoint { path: String::new(), label: None, totalBytes: None, availableBytes: None }
    }
}

/// A storage device and what is known of it.
#[allow(non_snake_case)]
#[derive(Debug, PartialEq)]
pub struct DeviceDescriptor {
    pub enumerator: String,
    pub busType: Option<String>,
    pub busVersion: Option<String>,
    pub device: String,
    pub devicePath: Option<String>,
    pub raw: String,
    pub description: String,
    pub error: Option<String>,
    pub partitionTableType: Option<String>,
    pub size: u64,
    pub blockSize: u32,
    pub logicalBlockSize: u32,
    pub mountpoints: Vec<MountPoint>,
    pub mountpointLabels: Vec<String>,
    /// Device is read-only
    pub isReadOnly: bool,
    /// Device is a system drive
    pub isSystem: bool,
    /// Device is an SD-card
    pub isCard: bool,
    /// Connected via the Small Computer System Interface (SCSI)
    pub isSCSI: bool,
    /// Connected via Universal Serial Bus (USB)
    pub isUSB: bool,
    /// Device is a virtual storage device
    pub isVirtual: bool,
    /// Device is removable from the running system
    pub isRemovable: bool,
    /// Connected via the USB Attached SCSI (UAS)
    pub isUAS: Option<bool>,
}

impl DeviceDescriptor {
    /// A descriptor that knows nothing yet: empty texts, no optional value,
    /// size 0, blocks of 512 bytes, no mount points and every flag unset.
    pub open spec fn is_blank(self) -> bool {
        &&& self.enumerator@ == Seq::<char>::empty()
        &&& self.description@ == Seq::<char>::empty()
        &&& !self.isUSB
        &&& !self.isRemovable
        &&& self.details_blank()
    }

    /// Every field but the enumerator, the description and the USB and
    /// removable flags is as a blank descriptor has it.
    pub open spec fn details_blank(self) -> bool {
        &&& self.busType is None
        &&& self.busVersion is None
        &&& self.device@ == Seq::<char>::empty()
        &&& self.devicePath is None
        &&& self.raw@ == Seq::<char>::empty()
        &&& self.error is None
        &&& self.partitionTableType is None
        &&& self.size == 0
        &&& self.blockSize == 512
        &&& self.logicalBlockSize == 512
        &&& self.mountpoints@.len() == 0
        &&& self.mountpointLabels@.len() == 0
        &&& !self.isReadOnly
        &&& !self.isSystem
        &&& !self.isCard
        &&& !self.isSCSI
        &&& !self.isVirtual
        &&& self.isUAS is None
    }
}

impl Default for DeviceDescriptor {
    fn default() -> (r: Self)
        ensures
            r.is_blank(),
    {
        DeviceDescriptor {
            enumerator: String::new(),
            busType: None,
            busVersion: None,
            device: String::new(),
            devicePath: None,
            raw: String::new(),
            description: String::new(),
            error: None,
            partitionTableType: None,
            size: 0,
            blockSize: 512,
            logicalBlockSize: 512,
            mountpoints: Vec::new(),
            mountpointLabels: Vec::new(),
            isReadOnly: false,
            isSystem: false,
            isCard: false,
            isSCSI: false,
            isUSB: false,
            isVirtual: false,
            isRemovable: false,
            isUAS: None,
        }
    }
}

/// A JSON value as the library hands it out.
#[derive(Debug, PartialEq)]
pub enum JsonNode {
    Null,
    Bool(bool),
    Signed(i64),
    Unsigned(u64),
    Text(String),
    Array(Vec<JsonNode>),
    Object(Vec<JsonMember>),
}

/// One member of a JSON object.
#[derive(Debug, PartialEq)]
pub struct JsonMember {
    pub key: String,
    pub value: JsonNode,
}

/// The mathematical form of a JSON value; object members keep their order.
#[verifier::ext_equal]
pub enum JsonSpec {
    Null,
    Bool(bool),
    Signed(i64),
    Unsigned(u64),
    Text(Seq<char>),
    Array(Seq<JsonSpec>),
    Object(Seq<(Seq<char>, JsonSpec)>),
}

impl JsonNode {
    pub open spec fn model(self) -> JsonSpec
        decreases self,
    {
        match self {
            JsonNode::Null => JsonSpec::Null,
            JsonNode::Bool(b) => JsonSpec::Bool(b),
            JsonNode::Signed(v) => JsonSpec::Signed(v),
            JsonNode::Unsigned(v) => JsonSpec::Unsigned(v),
            JsonNode::Text(s) => JsonSpec::Text(s@),
            JsonNode::Array(items) => JsonSpec::Array(
                Seq::new(
                    items@.len(),
                    |i: int|
                        if 0 <= i < items@.len() {
                            items@[i].model()
                        } else {
                            JsonSpec::Null
                        },
                ),
            ),
            JsonNode::Object(members) => JsonSpec::Object(
                Seq::new(
                    members@.len(),
                    |i: int|
                        if 0 <= i < members@.len() {
                            (members@[i].key@, members@[i].value.model())
                        } else {
                            (Seq::empty(), JsonSpec::Null)
                        },
                ),
            ),
        }
    }
}

/// A text, or `null` where there is none.
pub open spec fn opt_text_json(o: Option<String>) -> JsonSpec {
    match o {
        Some(s) => JsonSpec::Text(s@),
        None => JsonSpec::Null,
    }
}

/// A count, or `null` where there is none.
pub open spec fn opt_unsigned_json(o: Option<u64>) -> JsonSpec {
    match o {
        Some(v) => JsonSpec::Unsigned(v),
        None => JsonSpec::Null,
    }
}

/// A flag, or `null` where there is none.
pub open spec fn opt_bool_json(o: Option<bool>) -> JsonSpec {
    match o {
        Some(b) => JsonSpec::Bool(b),
        None => JsonSpec::Null,
    }
}

/// The JSON object of a mount point.
pub open spec fn mount_point_json(m: MountPoint) -> JsonSpec {
    JsonSpec::Object(
        seq![
            ("path"@, JsonSpec::Text(m.path@)),
            ("label"@, opt_text_json(m.label)),
            ("totalBytes"@, opt_unsigned_json(m.totalBytes)),
            ("availableBytes"@, opt_unsigned_json(m.availableBytes)),
        ],
    )
}

/// The JSON objects of a list of mount points, in order.
pub open spec fn mount_points_json(ms: Seq<MountPoint>) -> Seq<JsonSpec> {
    ms.map_values(|m: MountPoint| mount_point_json(m))
}

/// The JSON object of a device: every field but `mountpointLabels`, in the
/// order of the fields; the size is written as a signed 64-bit number and
/// the block sizes as signed 32-bit numbers, each taken bit for bit.
pub open spec fn device_json(d: DeviceDescriptor) -> JsonSpec {
    JsonSpec::Object(
        seq![
            ("enumerator"@, JsonSpec::Text(d.enumerator@)),
            ("busType"@, opt_text_json(d.busType)),
            ("busVersion"@, opt_text_json(d.busVersion)),
            ("device"@, JsonSpec::Text(d.device@)),
            ("devicePath"@, opt_text_json(d.devicePath)),
            ("raw"@, JsonSpec::Text(d.raw@)),
            ("description"@, JsonSpec::Text(d.description@)),
            ("error"@, opt_text_json(d.error)),
            ("partitionTableType"@, opt_text_json(d.partitionTableType)),
            ("size"@, JsonSpec::Signed(#[verifier::truncate] (d.size as i64))),
            ("blockSize"@, JsonSpec::Signed((#[verifier::truncate] (d.blockSize as i32)) as i64)),
            ("logicalBlockSize"@, JsonSpec::Signed((#[verifier::truncate] (d.logicalBlockSize as i32)) as i64)),
            ("mountpoints"@, JsonSpec::Array(mount_points_json(d.mountpoints@))),
            ("isReadOnly"@, JsonSpec::Bool(d.isReadOnly)),
            ("isSystem"@, JsonSpec::Bool(d.isSystem)),
            ("isCard"@, JsonSpec::Bool(d.isCard)),
            ("isSCSI"@, JsonSpec::Bool(d.isSCSI)),
            ("isUSB"@, JsonSpec::Bool(d.isUSB)),
            ("isVirtual"@, JsonSpec::Bool(d.isVirtual)),
            ("isRemovable"@, JsonSpec::Bool(d.isRemovable)),
            ("isUAS"@, opt_bool_json(d.isUAS)),
        ],
    )
}

fn member(key: &str, value: JsonNode) -> (m: JsonMember)
    ensures
        m.key@ == key@,
        m.value == value,
{
    JsonMember { key: key.to_owned(), value }
}

fn text_node(s: &String) -> (n: JsonNode)
    ensures
        n.model() == JsonSpec::Text(s@),
{
    JsonNode::Text(s.clone())
}

fn opt_text_node(o: &Option<String>) -> (n: JsonNode)
    ensures
        n.model() == opt_text_json(*o),
{
    match o {
        Some(s) => JsonNode::Text(s.clone()),
        None => JsonNode::Null,
    }
}

fn opt_unsigned_node(o: Option<u64>) -> (n: JsonNode)
    ensures
        n.model() == opt_unsigned_json(o),
{
    match o {
        Some(v) => JsonNode::Unsigned(v),
        None => JsonNode::Null,
    }
}

fn bool_node(b: bool) -> (n: JsonNode)
    ensures
        n.model() == JsonSpec::Bool(b),
{
    JsonNode::Bool(b)
}

fn signed_node(v: i64) -> (n: JsonNode)
    ensures
        n.model() == JsonSpec::Signed(v),
{
    JsonNode::Signed(v)
}

fn opt_bool_node(o: Option<bool>) -> (n: JsonNode)
    ensures
        n.model() == opt_bool_json(o),
{
    match o {
        Some(b) => JsonNode::Bool(b),
        None => JsonNode::Null,
    }
}

impl MountPoint {
    /// The JSON object of this mount point.
    pub fn to_json(&self) -> (r: JsonNode)
        ensures
            r.model() == mount_point_json(*self),
    {
        let mut members: Vec<JsonMember> = Vec::new();
        members.push(member("path", text_node(&self.path)));
        members.push(member("label", opt_text_node(&self.label)));
        members.push(member("totalBytes", opt_unsigned_node(self.totalBytes)));
        members.push(member("availableBytes", opt_unsigned_node(self.availableBytes)));
        let r = JsonNode::Object(members);
        assert(r.model()->Object_0 =~= mount_point_json(*self)->Object_0);
        r
    }
}

impl DeviceDescriptor {
    /// The JSON object of this device.
    pub fn to_json(&self) -> (r: JsonNode)
        ensures
            r.model() == device_json(*self),
    {
        let mut points: Vec<JsonNode> = Vec::new();
        let mut i: usize = 0;
        while i < self.mountpoints.len()
            invariant
                i <= self.mountpoints@.len(),
                points@.len() == i,
                forall|k: int|
                    0 <= k < i ==> (#[trigger] points@[k]).model() == mount_point_json(
                        self.mountpoints@[k],
                    ),
            decreases self.mountpoints@.len() - i,
        {
            points.push(self.mountpoints[i].to_json());
            i = i + 1;
        }
        let mount_list = JsonNode::Array(points);
        assert(mount_list.model()->Array_0 =~= mount_points_json(self.mountpoints@));
        assert(mount_list.model() == JsonSpec::Array(
            mount_points_json(self.mountpoints@),
        ));
        let mut members: Vec<JsonMember> = Vec::new();
        members.push(member("enumerator", text_node(&self.enumerator)));
        members.push(member("busType", opt_text_node(&self.busType)));
        members.push(member("busVersion", opt_text_node(&self.busVersion)));
        members.push(member("device", text_node(&self.device)));
        members.push(member("devicePath", opt_text_node(&self.devicePath)));
        members.push(member("raw", text_node(&self.raw)));
        members.push(member("description", text_node(&self.description)));
        members.push(member("error", opt_text_node(&self.error)));
        members.push(member("partitionTableType", opt_text_node(&self.partitionTableType)));
        members.push(member("size", signed_node(#[verifier::truncate] (self.size as i64))));
        members.push(member("blockSize", signed_node((#[verifier::truncate] (self.blockSize as i32)) as i64)));
        members.push(
            member("logicalBlockSize", signed_node((#[verifier::truncate] (self.logicalBlockSize as i32)) as i64)),
        );
        members.push(member("mountpoints", mount_list));
        members.push(member("isReadOnly", bool_node(self.isReadOnly)));
        members.push(member("isSystem", bool_node(self.isSystem)));
        members.push(member("isCard", bool_node(self.isCard)));
        members.push(member("isSCSI", bool_node(self.isSCSI)));
        members.push(member("isUSB", bool_node(self.isUSB)));
        members.push(member("isVirtual", bool_node(self.isVirtual)));
        members.push(member("isRemovable", bool_node(self.isRemovable)));
        members.push(member("isUAS", opt_bool_node(self.isUAS)));
        let r = JsonNode::Object(members);
        assert(r.model()->Object_0 =~= device_json(*self)->Object_0);
        r
    }
}

/// The JSON of a device does not depend on its mount point labels: two
/// descriptors that differ in nothing else have the same JSON.
pub proof fn lemma_json_ignores_mountpoint_labels(a: DeviceDescriptor, b: DeviceDescriptor)
    requires
        a == (DeviceDescriptor { mountpointLabels: a.mountpointLabels, ..b }),
    ensures
        device_json(a) == device_json(b),
{
}

/// Among the members of a JSON object, `key` is present and every member
/// under it holds `value`.
pub open spec fn carries(members: Seq<(Seq<char>, JsonSpec)>, key: Seq<char>, value: JsonSpec) -> bool {
    &&& exists|i: int| 0 <= i < members.len() && (#[trigger] members[i]).0 == key
    &&& forall|i: int| 0 <= i < members.len() && (#[trigger] members[i]).0 == key ==> members[i].1 == value
}

/// Every member of a device's JSON object carries the descriptor field of
/// the same name: `isReadOnly` its read-only flag, `isRemovable` its
/// removable flag, and so on for each field but `mountpointLabels`.
pub proof fn lemma_device_json_fields(d: DeviceDescriptor)
    ensures
        device_json(d) is Object,
        carries(device_json(d)->Object_0, "enumerator"@, JsonSpec::Text(d.enumerator@)),
        carries(device_json(d)->Object_0, "busType"@, opt_text_json(d.busType)),
        carries(device_json(d)->Object_0, "busVersion"@, opt_text_json(d.busVersion)),
        carries(device_json(d)->Object_0, "device"@, JsonSpec::Text(d.device@)),
        carries(device_json(d)->Object_0, "devicePath"@, opt_text_json(d.devicePath)),
        carries(device_json(d)->Object_0, "raw"@, JsonSpec::Text(d.raw@)),
        carries(device_json(d)->Object_0, "description"@, JsonSpec::Text(d.description@)),
        carries(device_json(d)->Object_0, "error"@, opt_text_json(d.error)),
        carries(device_json(d)->Object_0, "partitionTableType"@, opt_text_json(d.partitionTableType)),
        carries(device_json(d)->Object_0, "size"@, JsonSpec::Signed(#[verifier::truncate] (d.size as i64))),
        carries(device_json(d)->Object_0, "blockSize"@, JsonSpec::Signed((#[verifier::truncate] (d.blockSize as i32)) as i64)),
        carries(device_json(d)->Object_0, "logicalBlockSize"@, JsonSpec::Signed((#[verifier::truncate] (d.logicalBlockSize as i32)) as i64)),
        carries(device_json(d)->Object_0, "mountpoints"@, JsonSpec::Array(mount_points_json(d.mountpoints@))),
        carries(device_json(d)->Object_0, "isReadOnly"@, JsonSpec::Bool(d.isReadOnly)),
        carries(device_json(d)->Object_0, "isSystem"@, JsonSpec::Bool(d.isSystem)),
        carries(device_json(d)->Object_0, "isCard"@, JsonSpec::Bool(d.isCard)),
        carries(device_json(d)->Object_0, "isSCSI"@, JsonSpec::Bool(d.isSCSI)),
        carries(device_json(d)->Object_0, "isUSB"@, JsonSpec::Bool(d.isUSB)),
        carries(device_json(d)->Object_0, "isVirtual"@, JsonSpec::Bool(d.isVirtual)),
        carries(device_json(d)->Object_0, "isRemovable"@, JsonSpec::Bool(d.isRemovable)),
        carries(device_json(d)->Object_0, "isUAS"@, opt_bool_json(d.isUAS)),
{
    reveal_strlit("enumerator");
    assert("enumerator"@.len() == 10 && "enumerator"@[0] == 'e' && "enumerator"@[1] == 'n' && "enumerator"@[2] == 'u' && "enumerator"@[3] == 'm');
    reveal_strlit("busType");
    assert("busType"@.len() == 7 && "busType"@[0] == 'b' && "busType"@[1] == 'u' && "busType"@[2] == 's' && "busType"@[3] == 'T');
    reveal_strlit("busVersion");
    assert("busVersion"@.len() == 10 && "busVersion"@[0] == 'b' && "busVersion"@[1] == 'u' && "busVersion"@[2] == 's' && "busVersion"@[3] == 'V');
    reveal_strlit("device");
    assert("device"@.len() == 6 && "device"@[0] == 'd' && "device"@[1] == 'e' && "device"@[2] == 'v' && "device"@[3] == 'i');
    reveal_strlit("devicePath");
    assert("devicePath"@.len() == 10 && "devicePath"@[0] == 'd' && "devicePath"@[1] == 'e' && "devicePath"@[2] == 'v' && "devicePath"@[3] == 'i');
    reveal_strlit("raw");
    assert("raw"@.len() == 3 && "raw"@[0] == 'r' && "raw"@[1] == 'a' && "raw"@[2] == 'w');
    reveal_strlit("description");
    assert("description"@.len() == 11 && "description"@[0] == 'd' && "description"@[1] == 'e' && "description"@[2] == 's' && "description"@[3] == 'c');
    reveal_strlit("error");
    assert("error"@.len() == 5 && "error"@[0] == 'e' && "error"@[1] == 'r' && "error"@[2] == 'r' && "error"@[3] == 'o');
    reveal_strlit("partitionTableType");
    assert("partitionTableType"@.len() == 18 && "partitionTableType"@[0] == 'p' && "partitionTableType"@[1] == 'a' && "partitionTableType"@[2] == 'r' && "partitionTableType"@[3] == 't');
    reveal_strlit("size");
    assert("size"@.len() == 4 && "size"@[0] == 's' && "size"@[1] == 'i' && "size"@[2] == 'z' && "size"@[3] == 'e');
    reveal_strlit("blockSize");
    assert("blockSize"@.len() == 9 && "blockSize"@[0] == 'b' && "blockSize"@[1] == 'l' && "blockSize"@[2] == 'o' && "blockSize"@[3] == 'c');
    reveal_strlit("logicalBlockSize");
    assert("logicalBlockSize"@.len() == 16 && "logicalBlockSize"@[0] == 'l' && "logicalBlockSize"@[1] == 'o' && "logicalBlockSize"@[2] == 'g' && "logicalBlockSize"@[3] == 'i');
    reveal_strlit("mountpoints");
    assert("mountpoints"@.len() == 11 && "mountpoints"@[0] == 'm' && "mountpoints"@[1] == 'o' && "mountpoints"@[2] == 'u' && "mountpoints"@[3] == 'n');
    reveal_strlit("isReadOnly");
    assert("isReadOnly"@.len() == 10 && "isReadOnly"@[0] == 'i' && "isReadOnly"@[1] == 's' && "isReadOnly"@[2] == 'R' && "isReadOnly"@[3] == 'e');
    reveal_strlit("isSystem");
    assert("isSystem"@.len() == 8 && "isSystem"@[0] == 'i' && "isSystem"@[1] == 's' && "isSystem"@[2] == 'S' && "isSystem"@[3] == 'y');
    reveal_strlit("isCard");
    assert("isCard"@.len() == 6 && "isCard"@[0] == 'i' && "isCard"@[1] == 's' && "isCard"@[2] == 'C' && "isCard"@[3] == 'a');
    reveal_strlit("isSCSI");
    assert("isSCSI"@.len() == 6 && "isSCSI"@[0] == 'i' && "isSCSI"@[1] == 's' && "isSCSI"@[2] == 'S' && "isSCSI"@[3] == 'C');
    reveal_strlit("isUSB");
    assert("isUSB"@.len() == 5 && "isUSB"@[0] == 'i' && "isUSB"@[1] == 's' && "isUSB"@[2] == 'U' && "isUSB"@[3] == 'S');
    reveal_strlit("isVirtual");
    assert("isVirtual"@.len() == 9 && "isVirtual"@[0] == 'i' && "isVirtual"@[1] == 's' && "isVirtual"@[2] == 'V' && "isVirtual"@[3] == 'i');
    reveal_strlit("isRemovable");
    assert("isRemovable"@.len() == 11 && "isRemovable"@[0] == 'i' && "isRemovable"@[1] == 's' && "isRemovable"@[2] == 'R' && "isRemovable"@[3] == 'e');
    reveal_strlit("isUAS");
    assert("isUAS"@.len() == 5 && "isUAS"@[0] == 'i' && "isUAS"@[1] == 's' && "isUAS"@[2] == 'U' && "isUAS"@[3] == 'A');
    let ms = device_json(d)->Object_0;
    assert(ms[0].0 == "enumerator"@);
    assert(ms[1].0 == "busType"@);
    assert(ms[2].0 == "busVersion"@);
    assert(ms[3].0 == "device"@);
    assert(ms[4].0 == "devicePath"@);
    assert(ms[5].0 == "raw"@);
    assert(ms[6].0 == "description"@);
    assert(ms[7].0 == "error"@);
    assert(ms[8].0 == "partitionTableType"@);
    assert(ms[9].0 == "size"@);
    assert(ms[10].0 == "blockSize"@);
    assert(ms[11].0 == "logicalBlockSize"@);
    assert(ms[12].0 == "mountpoints"@);
    assert(ms[13].0 == "isReadOnly"@);
    assert(ms[14].0 == "isSystem"@);
    assert(ms[15].0 == "isCard"@);
    assert(ms[16].0 == "isSCSI"@);
    assert(ms[17].0 == "isUSB"@);
    assert(ms[18].0 == "isVirtual"@);
    assert(ms[19].0 == "isRemovable"@);
    assert(ms[20].0 == "isUAS"@);
}

/// Every member of a mount point's JSON object carries the field of the
/// same name.
pub proof fn lemma_mount_point_json_fields(m: MountPoint)
    ensures
        mount_point_json(m) is Object,
        carries(mount_point_json(m)->Object_0, "path"@, JsonSpec::Text(m.path@)),
        carries(mount_point_json(m)->Object_0, "label"@, opt_text_json(m.label)),
        carries(mount_point_json(m)->Object_0, "totalBytes"@, opt_unsigned_json(m.totalBytes)),
        carries(mount_point_json(m)->Object_0, "availableBytes"@, opt_unsigned_json(m.availableBytes)),
{
    reveal_strlit("path");
    assert("path"@.len() == 4 && "path"@[0] == 'p' && "path"@[1] == 'a' && "path"@[2] == 't' && "path"@[3] == 'h');
    reveal_strlit("label");
    assert("label"@.len() == 5 && "label"@[0] == 'l' && "label"@[1] == 'a' && "label"@[2] == 'b' && "label"@[3] == 'e');
    reveal_strlit("totalBytes");
    assert("totalBytes"@.len() == 10 && "totalBytes"@[0] == 't' && "totalBytes"@[1] == 'o' && "totalBytes"@[2] == 't' && "totalBytes"@[3] == 'a');
    reveal_strlit("availableBytes");
    assert("availableBytes"@.len() == 14 && "availableBytes"@[0] == 'a' && "availableBytes"@[1] == 'v' && "availableBytes"@[2] == 'a' && "availableBytes"@[3] == 'i');
    let ms = mount_point_json(m)->Object_0;
    assert(ms[0].0 == "path"@);
    assert(ms[1].0 == "label"@);
    assert(ms[2].0 == "totalBytes"@);
    assert(ms[3].0 == "availableBytes"@);
}

} // verus!
