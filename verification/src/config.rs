//! What the daemon knows of itself: its configuration, its serial number and its firmware.
use crate::error::{ErrorModel, NocturnedError};
use crate::json::{Json, JsonModel};
use crate::text;
use vstd::prelude::*;
use vstd::utf8::*;

verus! {

/// The file that holds the configuration.
pub const CONFIG_PATH: &'static str = "/etc/nocturne/config.json";

/// The file that holds the serial number.
pub const SERIAL_NUMBER_PATH: &'static str = "/sys/class/efuse/usid";

/// The file that describes the firmware.
pub const VERSION_PATH: &'static str = "/etc/nocturne/version.json";

/// The description of the firmware.
#[derive(Debug)]
pub struct VersionInfo {
    pub version: String,
    pub short_version: String,
    pub git_hash: String,
    pub build_date: String,
}

/// The description of the firmware, apart from how it is stored.
pub struct VersionModel {
    pub version: Seq<char>,
    pub short_version: Seq<char>,
    pub git_hash: Seq<char>,
    pub build_date: Seq<char>,
}

impl View for VersionInfo {
    type V = VersionModel;

    open spec fn view(&self) -> VersionModel {
        VersionModel {
            version: self.version@,
            short_version: self.short_version@,
            git_hash: self.git_hash@,
            build_date: self.build_date@,
        }
    }
}

/// What the daemon tells of itself.
#[derive(Debug)]
pub struct DeviceInfoMetadata {
    pub device: String,
    pub version: String,
    pub full_version: Option<String>,
    pub build_date: Option<String>,
    pub git_hash: Option<String>,
    pub serial_number: Option<String>,
}

/// What the daemon tells of itself, apart from how it is stored.
pub struct DeviceInfoModel {
    pub device: Seq<char>,
    pub version: Seq<char>,
    pub full_version: Option<Seq<char>>,
    pub build_date: Option<Seq<char>>,
    pub git_hash: Option<Seq<char>>,
    pub serial_number: Option<Seq<char>>,
}

impl View for DeviceInfoMetadata {
    type V = DeviceInfoModel;

    open spec fn view(&self) -> DeviceInfoModel {
        DeviceInfoModel {
            device: self.device@,
            version: self.version@,
            full_version: text::optional_text(self.full_version),
            build_date: text::optional_text(self.build_date),
            git_hash: text::optional_text(self.git_hash),
            serial_number: text::optional_text(self.serial_number),
        }
    }
}

/// The configuration of the daemon.
#[derive(Clone, Copy, Debug, PartialEq, Eq, Structural)]
pub struct Config {
    pub debug_logs: bool,
}

impl Default for Config {
    fn default() -> (r: Config)
        ensures
            r == (Config { debug_logs: false }),
    {
        Config { debug_logs: false }
    }
}

impl Config {
    /// The configuration that is stored, or the default where none is. A file that cannot be read
    /// is a failure.
    pub fn load(stored: Option<Result<Config, String>>) -> (r: Result<Config, NocturnedError>)
        ensures
            match stored {
                None => r == Ok::<Config, NocturnedError>(Config { debug_logs: false }),
                Some(Ok(c)) => r == Ok::<Config, NocturnedError>(c),
                Some(Err(fault)) => r matches Err(e) && e@ == ErrorModel::General(fault@),
            },
    {
        match stored {
            None => Ok(Config::default()),
            Some(Ok(c)) => Ok(c),
            Some(Err(fault)) => Err(NocturnedError::General(fault)),
        }
    }
}

/// The models of what a file held, or of what went wrong.
pub open spec fn read_model(contents: Result<String, String>) -> Result<Seq<char>, Seq<char>> {
    match contents {
        Ok(s) => Ok(s@),
        Err(s) => Err(s@),
    }
}

/// The serial number in what its file held, or why there is none.
pub open spec fn serial_number(contents: Result<Seq<char>, Seq<char>>) -> Result<
    Seq<char>,
    ErrorModel,
> {
    match contents {
        Err(fault) => Err(ErrorModel::General("Failed to read serial number: "@ + fault)),
        Ok(s) => if text::trimmed(s).len() == 0 {
            Err(ErrorModel::General("Serial number is empty"@))
        } else {
            Ok(text::trimmed(s))
        },
    }
}

/// Reads the serial number out of what its file held.
pub fn get_serial_number(contents: &Result<String, String>) -> (r: Result<String, NocturnedError>)
    ensures
        match r {
            Ok(s) => serial_number(read_model(*contents)) == Ok::<Seq<char>, ErrorModel>(s@),
            Err(e) => serial_number(read_model(*contents)) == Err::<Seq<char>, ErrorModel>(e@),
        },
{
    match contents {
        Err(fault) => Err(
            NocturnedError::General(text::joined("Failed to read serial number: ", fault.as_str())),
        ),
        Ok(s) => {
            let serial = text::trim(s.as_str());
            if text::is_empty(serial.as_str()) {
                Err(NocturnedError::General("Serial number is empty".to_owned()))
            } else {
                Ok(serial)
            }
        },
    }
}

/// The last four bytes of a text begin with a character, where it has that many.
pub open spec fn has_last_four(s: Seq<char>) -> bool {
    let bytes = encode_utf8(s);
    bytes.len() >= 4 ==> is_char_boundary(bytes, bytes.len() - 4)
}

/// The last four bytes of a text, or the whole of it where it has fewer.
pub open spec fn last_four(s: Seq<char>) -> Seq<char> {
    let bytes = encode_utf8(s);
    if bytes.len() >= 4 {
        decode_utf8(bytes.skip(bytes.len() - 4))
    } else {
        s
    }
}

/// The name under which the device is seen over Bluetooth, or why there is none.
pub open spec fn device_name(contents: Result<Seq<char>, Seq<char>>) -> Result<
    Seq<char>,
    ErrorModel,
> {
    match serial_number(contents) {
        Ok(serial) => Ok("Nocturne ("@ + last_four(serial) + ")"@),
        Err(e) => Err(e),
    }
}

/// The name under which the device is seen over Bluetooth.
pub fn get_bluetooth_device_name(contents: &Result<String, String>) -> (r: Result<
    String,
    NocturnedError,
>)
    requires
        serial_number(read_model(*contents)) matches Ok(serial) ==> has_last_four(serial),
    ensures
        match r {
            Ok(s) => device_name(read_model(*contents)) == Ok::<Seq<char>, ErrorModel>(s@),
            Err(e) => device_name(read_model(*contents)) == Err::<Seq<char>, ErrorModel>(e@),
        },
{
    let serial = match get_serial_number(contents) {
        Ok(s) => s,
        Err(e) => return Err(e),
    };
    Ok(name_with_serial(serial.as_str()))
}

/// The name of a device with some serial number.
pub fn name_with_serial(serial: &str) -> (r: String)
    requires
        has_last_four(serial@),
    ensures
        r@ == "Nocturne ("@ + last_four(serial@) + ")"@,
{
    let bytes = serial.as_bytes();
    let mut name = "Nocturne (".to_owned();
    if bytes.len() >= 4 {
        let (_, tail) = serial.split_at(bytes.len() - 4);
        proof {
            let b = encode_utf8(serial@);
            encode_utf8_decode_utf8(tail@);
            assert(b.subrange(b.len() - 4, b.len() as int) =~= b.skip(b.len() - 4));
        }
        assert(tail@ == last_four(serial@));
        name.append(tail);
    } else {
        name.append(serial);
    }
    name.append(")");
    name
}

/// A version without the letters `v` in front.
pub open spec fn bare_version(s: Seq<char>) -> Seq<char> {
    text::without_leading(s, 'v')
}

/// The version of the firmware: the short one, or the full one where the short one is empty.
pub open spec fn firmware_version(info: VersionModel) -> Seq<char> {
    if bare_version(info.short_version).len() > 0 {
        bare_version(info.short_version)
    } else {
        bare_version(info.version)
    }
}

fn version_text(info: &VersionInfo) -> (r: String)
    ensures
        r@ == firmware_version(info@),
{
    let short = text::trim_leading(info.short_version.as_str(), 'v');
    if text::is_empty(short.as_str()) {
        text::trim_leading(info.version.as_str(), 'v')
    } else {
        short
    }
}

/// The version of the firmware, out of its description or why there is none.
pub fn get_firmware_version(info: Result<VersionInfo, NocturnedError>) -> (r: Result<
    String,
    NocturnedError,
>)
    ensures
        match info {
            Err(e) => r == Err::<String, NocturnedError>(e),
            Ok(info) => match r {
                Ok(s) => s@ == firmware_version(info@) && s@.len() > 0,
                Err(e) => firmware_version(info@).len() == 0 && e@ == ErrorModel::General(
                    "Firmware version is empty"@,
                ),
            },
        },
{
    match info {
        Err(e) => Err(e),
        Ok(info) => {
            let version = version_text(&info);
            if text::is_empty(version.as_str()) {
                Err(NocturnedError::General("Firmware version is empty".to_owned()))
            } else {
                Ok(version)
            }
        },
    }
}

/// What went wrong while the description of the firmware was read.
pub fn version_info_fault(parsing: bool, fault: &str) -> (r: NocturnedError)
    ensures
        r@ == ErrorModel::General(
            if parsing {
                "Failed to parse version JSON: "@ + fault@
            } else {
                "Failed to read firmware version: "@ + fault@
            },
        ),
{
    if parsing {
        NocturnedError::General(text::joined("Failed to parse version JSON: ", fault))
    } else {
        NocturnedError::General(text::joined("Failed to read firmware version: ", fault))
    }
}

/// A text, none where it is empty.
pub open spec fn unless_empty(s: Seq<char>) -> Option<Seq<char>> {
    if s.len() == 0 {
        None
    } else {
        Some(s)
    }
}

fn some_unless_empty(s: &String) -> (r: Option<String>)
    ensures
        text::optional_text(r) == unless_empty(s@),
{
    if text::is_empty(s.as_str()) {
        None
    } else {
        Some(s.clone())
    }
}

/// What the daemon tells of itself, by what the file with the serial number held and by the
/// description of the firmware, where there is one.
pub open spec fn device_info(
    contents: Result<Seq<char>, Seq<char>>,
    info: Option<VersionModel>,
) -> DeviceInfoModel {
    DeviceInfoModel {
        device: match device_name(contents) {
            Ok(name) => name,
            Err(_) => "Nocturne"@,
        },
        version: match info {
            Some(info) => if firmware_version(info).len() > 0 {
                firmware_version(info)
            } else {
                "unknown"@
            },
            None => "unknown"@,
        },
        full_version: match info {
            Some(info) => unless_empty(info.version),
            None => None,
        },
        build_date: match info {
            Some(info) => unless_empty(info.build_date),
            None => None,
        },
        git_hash: match info {
            Some(info) => unless_empty(info.git_hash),
            None => None,
        },
        serial_number: match serial_number(contents) {
            Ok(serial) => Some(serial),
            Err(_) => None,
        },
    }
}

/// Gathers what the daemon tells of itself.
pub fn collect_device_info_metadata(
    contents: &Result<String, String>,
    info: Option<&VersionInfo>,
) -> (r: DeviceInfoMetadata)
    requires
        serial_number(read_model(*contents)) matches Ok(serial) ==> has_last_four(serial),
    ensures
        r@ == device_info(
            read_model(*contents),
            match info {
                Some(info) => Some(info@),
                None => None,
            },
        ),
{
    let device = match get_bluetooth_device_name(contents) {
        Ok(name) => name,
        Err(_) => "Nocturne".to_owned(),
    };
    let serial_number = match get_serial_number(contents) {
        Ok(serial) => Some(serial),
        Err(_) => None,
    };
    match info {
        Some(info) => {
            let found = version_text(info);
            let version = if text::is_empty(found.as_str()) {
                "unknown".to_owned()
            } else {
                found
            };
            DeviceInfoMetadata {
                device,
                version,
                full_version: some_unless_empty(&info.version),
                build_date: some_unless_empty(&info.build_date),
                git_hash: some_unless_empty(&info.git_hash),
                serial_number,
            }
        },
        None => DeviceInfoMetadata {
            device,
            version: "unknown".to_owned(),
            full_version: None,
            build_date: None,
            git_hash: None,
            serial_number,
        },
    }
}

/// An object with a text member, where there is a text.
pub open spec fn and_text(doc: JsonModel, key: Seq<char>, value: Option<Seq<char>>) -> JsonModel {
    match value {
        Some(s) => doc.and(key, JsonModel::Text(s)),
        None => doc,
    }
}

fn with_text(doc: Json, key: &str, value: &Option<String>) -> (r: Json)
    ensures
        r@ == and_text(doc@, key@, text::optional_text(*value)),
{
    match value {
        Some(s) => doc.and(key, Json::text(s.as_str())),
        None => doc,
    }
}

/// What the daemon tells of itself, as a document.
pub open spec fn device_info_json(info: DeviceInfoModel) -> JsonModel {
    let doc = JsonModel::table().and("device"@, JsonModel::Text(info.device)).and(
        "version"@,
        JsonModel::Text(info.version),
    );
    let doc = and_text(doc, "fullVersion"@, info.full_version);
    let doc = and_text(doc, "buildDate"@, info.build_date);
    let doc = and_text(doc, "gitHash"@, info.git_hash);
    and_text(doc, "serialNumber"@, info.serial_number)
}

impl DeviceInfoMetadata {
    /// The document that the clients and the phone get.
    pub fn to_json(&self) -> (r: Json)
        ensures
            r@ == device_info_json(self@),
    {
        let doc = Json::table().and("device", Json::text(self.device.as_str())).and(
            "version",
            Json::text(self.version.as_str()),
        );
        let doc = with_text(doc, "fullVersion", &self.full_version);
        let doc = with_text(doc, "buildDate", &self.build_date);
        let doc = with_text(doc, "gitHash", &self.git_hash);
        with_text(doc, "serialNumber", &self.serial_number)
    }
}

proof fn lemma_last_four_of_ascii(s: Seq<char>)
    requires
        is_ascii_chars(s),
    ensures
        last_four(s) == s.skip(
            if s.len() >= 4 {
                s.len() - 4
            } else {
                0
            },
        ),
{
    is_ascii_chars_encode_utf8(s);
    assert(s.skip(0) =~= s);
    if s.len() >= 4 {
        let n = s.len() - 4;
        let tail = s.skip(n);
        assert(is_ascii_chars(tail)) by {
            is_ascii_chars_nat_bound(s);
            is_ascii_chars_nat_bound(tail);
        }
        is_ascii_chars_encode_utf8(tail);
        assert forall|i: int| 0 <= i < 4 implies encode_utf8(tail)[i] == encode_utf8(s).skip(
            n,
        )[i] by {
            assert(tail[i] == s[n + i]);
            assert(encode_utf8(s)[n + i] == s[n + i] as u8);
        }
        assert(encode_utf8(tail) =~= encode_utf8(s).skip(n));
        encode_utf8_decode_utf8(tail);
    }
}

/// The serial number is what its file held, but for white space at the ends, and there is none just
/// where nothing else is left or the file could not be read.
pub proof fn law_serial_number_is_what_the_file_held(contents: Result<Seq<char>, Seq<char>>)
    ensures
        serial_number(contents) is Ok <==> (contents matches Ok(s) && text::trimmed(s).len() > 0),
        serial_number(contents) matches Ok(serial) ==> {
            &&& contents matches Ok(s)
            &&& text::holds(s, serial)
            &&& serial.len() > 0
            &&& !text::white_space(serial[0])
            &&& !text::white_space(serial.last())
        },
        device_name(contents) is Ok <==> serial_number(contents) is Ok,
{
    if let Ok(s) = contents {
        text::law_trimming_takes_off_white_space(s);
        let i = choose|i: int| #[trigger]
            text::occurs_at(s, text::trimmed(s), i) && (forall|k: int|
                0 <= k < s.len() && !(i <= k < i + text::trimmed(s).len()) ==> text::white_space(
                    #[trigger] s[k],
                ));
        assert(text::occurs_at(s, text::trimmed(s), i));
    }
}

/// A device is named after the last four characters of its serial number, or after all of it where
/// there are fewer.
pub proof fn law_device_is_named_after_its_serial(serial: Seq<char>)
    requires
        is_ascii_chars(serial),
        serial.len() > 0,
        !text::white_space(serial[0]),
        !text::white_space(serial.last()),
    ensures
        device_name(Ok(serial)) == Ok::<Seq<char>, ErrorModel>(
            "Nocturne ("@ + serial.skip(
                if serial.len() >= 4 {
                    serial.len() - 4
                } else {
                    0
                },
            ) + ")"@,
        ),
{
    lemma_last_four_of_ascii(serial);
    assert(text::trimmed_start(serial) == serial);
    assert(text::trimmed_end(serial) == serial);
}

/// The version of the firmware does not begin with a `v`. It is the end of the short version where
/// that says anything, and of the full one where it does not.
pub proof fn law_firmware_version_is_bare(info: VersionModel)
    ensures
        firmware_version(info).len() > 0 ==> firmware_version(info)[0] != 'v',
        (exists|i: int| 0 <= i < info.short_version.len() && #[trigger] info.short_version[i]
            != 'v') ==> firmware_version(info).is_suffix_of(info.short_version)
            && firmware_version(info).len() > 0,
        (forall|i: int| 0 <= i < info.short_version.len() ==> #[trigger] info.short_version[i]
            == 'v') ==> firmware_version(info).is_suffix_of(info.version),
{
    text::law_leading_run_is_taken_off(info.short_version, 'v');
    text::law_leading_run_is_taken_off(info.version, 'v');
    let bare = bare_version(info.short_version);
    if bare.len() > 0 {
        let at = info.short_version.len() - bare.len();
        assert(info.short_version[at as int] == bare[0]);
    }
}

/// What is known of the device is told under its name, and what is not known is not told.
pub proof fn law_device_tells_what_is_known(
    contents: Result<Seq<char>, Seq<char>>,
    version: Option<VersionModel>,
    info: DeviceInfoModel,
)
    ensures
        device_info_json(info).text_field("device"@) == Some(info.device),
        device_info_json(info).text_field("version"@) == Some(info.version),
        device_info_json(info).text_field("fullVersion"@) == info.full_version,
        device_info_json(info).text_field("buildDate"@) == info.build_date,
        device_info_json(info).text_field("gitHash"@) == info.git_hash,
        device_info_json(info).text_field("serialNumber"@) == info.serial_number,
        device_info(contents, version).serial_number == serial_number(contents).ok(),
        device_name(contents) matches Ok(name) ==> device_info(contents, version).device == name,
        version matches Some(v) ==> {
            &&& v.version.len() > 0 ==> device_info(contents, version).full_version == Some(
                v.version,
            )
            &&& v.build_date.len() > 0 ==> device_info(contents, version).build_date == Some(
                v.build_date,
            )
            &&& v.git_hash.len() > 0 ==> device_info(contents, version).git_hash == Some(v.git_hash)
            &&& firmware_version(v).len() > 0 ==> device_info(contents, version).version
                == firmware_version(v)
        },
{
    reveal_strlit("device");
    reveal_strlit("version");
    reveal_strlit("fullVersion");
    reveal_strlit("buildDate");
    reveal_strlit("gitHash");
    reveal_strlit("serialNumber");
    assert("version"@[0] != "gitHash"@[0]);
    assert("device"@.len() == 6 && "version"@.len() == 7 && "fullVersion"@.len() == 11);
    assert("buildDate"@.len() == 9 && "gitHash"@.len() == 7 && "serialNumber"@.len() == 12);
    let d0 = JsonModel::table();
    let d1 = d0.and("device"@, JsonModel::Text(info.device));
    crate::json::law_member_is_found(d0, "device"@, JsonModel::Text(info.device));
    let d2 = d1.and("version"@, JsonModel::Text(info.version));
    crate::json::law_member_is_found(d1, "version"@, JsonModel::Text(info.version));
    lemma_and_text(d2, "fullVersion"@, info.full_version);
    let d3 = and_text(d2, "fullVersion"@, info.full_version);
    lemma_and_text(d3, "buildDate"@, info.build_date);
    let d4 = and_text(d3, "buildDate"@, info.build_date);
    lemma_and_text(d4, "gitHash"@, info.git_hash);
    let d5 = and_text(d4, "gitHash"@, info.git_hash);
    lemma_and_text(d5, "serialNumber"@, info.serial_number);
    let d6 = and_text(d5, "serialNumber"@, info.serial_number);
    assert(device_info_json(info) == d6);
    crate::json::law_bare_object_has_no_member("device"@);
    crate::json::law_bare_object_has_no_member("version"@);
    crate::json::law_bare_object_has_no_member("fullVersion"@);
    crate::json::law_bare_object_has_no_member("buildDate"@);
    crate::json::law_bare_object_has_no_member("gitHash"@);
    crate::json::law_bare_object_has_no_member("serialNumber"@);
    assert(d2.field("fullVersion"@) is None && d3.field("buildDate"@) is None);
    assert(d6.field("fullVersion"@) == d3.field("fullVersion"@));
    assert(d6.field("buildDate"@) == d4.field("buildDate"@));
}

proof fn lemma_and_text(doc: JsonModel, key: Seq<char>, value: Option<Seq<char>>)
    requires
        doc is Table,
    ensures
        and_text(doc, key, value) is Table,
        doc.field(key) is None ==> and_text(doc, key, value).text_field(key) == value,
        forall|other: Seq<char>|
            other != key ==> #[trigger] and_text(doc, key, value).field(other) == doc.field(other),
{
    if let Some(s) = value {
        crate::json::law_member_is_found(doc, key, JsonModel::Text(s));
    }
}

} // verus!
