//! The brightness of the display, set by hand or following the light around it.
use crate::error::{ErrorModel, NocturnedError};
use crate::json::{Json, JsonModel, JsonNumber};
use crate::text;
use std::collections::VecDeque;
use vstd::prelude::*;

verus! {

/// The file that sets the backlight.
pub const BRIGHTNESS_PATH: &'static str = "/sys/class/backlight/aml-bl/brightness";

/// The file that keeps the setting.
pub const BRIGHTNESS_SAVE_PATH: &'static str = "/var/lib/brightness.json";

/// The file with the light around the display.
pub const ALS_PATH: &'static str = "/sys/bus/iio/devices/iio:device0/in_intensity0_raw";

/// The value of the darkest display. Lower values are brighter.
pub const MIN_BRIGHTNESS: u8 = 255;

/// The value of the brightest display.
pub const MAX_BRIGHTNESS: u8 = 1;

/// The darkest value that follows the light.
pub const AUTO_MIN_BRIGHTNESS: u8 = 240;

/// The brightest value that follows the light.
pub const AUTO_MAX_BRIGHTNESS: u8 = 20;

/// Light up to which the display is darkest.
pub const STOCK_ALS_LOW_THRESHOLD: u32 = 12;

/// Light from which on the display is brightest.
pub const STOCK_ALS_HIGH_THRESHOLD: u32 = 2000;

/// The darkest value of the curve.
pub const STOCK_FLOOR: i64 = 235;

/// The brightest value of the curve.
pub const STOCK_CEILING: i64 = 50;

/// How many readings of the light are kept.
pub const SMOOTHING_SAMPLES: usize = 11;

/// The setting that is kept.
#[derive(Clone, Copy, Debug, PartialEq, Eq, Structural)]
pub struct BrightnessConfig {
    pub auto: bool,
    pub brightness: u8,
}

/// The setting where none is kept.
pub open spec fn default_brightness() -> BrightnessConfig {
    BrightnessConfig { auto: true, brightness: 180 }
}

impl Default for BrightnessConfig {
    fn default() -> (r: BrightnessConfig)
        ensures
            r == default_brightness(),
    {
        BrightnessConfig { auto: true, brightness: 180 }
    }
}

/// The setting as a document.
pub open spec fn brightness_json(c: BrightnessConfig) -> JsonModel {
    JsonModel::table().and("auto"@, JsonModel::Bool(c.auto)).and(
        "brightness"@,
        JsonModel::Number(JsonNumber::Unsigned(c.brightness as u64)),
    )
}

impl BrightnessConfig {
    /// The setting as a document.
    pub fn to_json(&self) -> (r: Json)
        ensures
            r@ == brightness_json(*self),
    {
        Json::table().and("auto", Json::Bool(self.auto)).and(
            "brightness",
            Json::unsigned(self.brightness as u64),
        )
    }
}

/// What is wrong with the file that keeps the setting.
#[derive(Debug)]
pub enum StoredFault {
    /// It cannot be read.
    Unreadable(String),
    /// It holds something else.
    Malformed(String),
}

/// The setting that is kept, or the default where none is. A file that cannot be read is a
/// failure, and so is one that holds something else.
pub fn get_brightness_config(stored: Option<Result<BrightnessConfig, StoredFault>>) -> (r: Result<
    BrightnessConfig,
    NocturnedError,
>)
    ensures
        match stored {
            None => r == Ok::<BrightnessConfig, NocturnedError>(default_brightness()),
            Some(Ok(c)) => r == Ok::<BrightnessConfig, NocturnedError>(c),
            Some(Err(StoredFault::Unreadable(fault))) => r matches Err(e) && e@ == ErrorModel::Io(
                fault@,
            ),
            Some(Err(StoredFault::Malformed(fault))) => r matches Err(e) && e@
                == ErrorModel::Json(fault@),
        },
{
    match stored {
        None => Ok(BrightnessConfig::default()),
        Some(Ok(c)) => Ok(c),
        Some(Err(StoredFault::Unreadable(fault))) => Err(NocturnedError::Io(fault)),
        Some(Err(StoredFault::Malformed(fault))) => Err(NocturnedError::Json(fault)),
    }
}

/// What is done about the brightness.
#[derive(Clone, Copy, Debug, PartialEq, Eq, Structural)]
pub enum BrightnessAction {
    /// Let the display follow the light, from the start.
    StartAuto,
    /// Do not let the display follow the light.
    StopAuto,
    /// Set the backlight. Where that fails, nothing more is done.
    WriteBacklight(u8),
    /// Keep the setting.
    Save(BrightnessConfig),
}

/// What is done to set a brightness by hand, none for a value that there is no brightness for.
pub open spec fn hand_actions(value: u8) -> Option<Seq<BrightnessAction>> {
    if value < MAX_BRIGHTNESS {
        None
    } else {
        Some(
            seq![
                BrightnessAction::StopAuto,
                BrightnessAction::WriteBacklight(value),
                BrightnessAction::Save(BrightnessConfig { auto: false, brightness: value }),
            ],
        )
    }
}

/// What is done to set a brightness by hand; a value that there is none for is refused.
pub fn set_brightness(value: u8) -> (r: Result<Vec<BrightnessAction>, NocturnedError>)
    ensures
        match r {
            Ok(actions) => MAX_BRIGHTNESS <= value <= MIN_BRIGHTNESS && actions@ == seq![
                BrightnessAction::StopAuto,
                BrightnessAction::WriteBacklight(value),
                BrightnessAction::Save(BrightnessConfig { auto: false, brightness: value }),
            ],
            Err(e) => value < MAX_BRIGHTNESS && e@ == ErrorModel::General(
                "brightness value must be between 1 and 255"@,
            ),
        },
        match r {
            Ok(actions) => hand_actions(value) == Some(actions@),
            Err(_) => hand_actions(value) is None,
        },
{
    if value < MAX_BRIGHTNESS {
        return Err(
            NocturnedError::General("brightness value must be between 1 and 255".to_owned()),
        );
    }
    let mut actions: Vec<BrightnessAction> = Vec::new();
    actions.push(BrightnessAction::StopAuto);
    actions.push(BrightnessAction::WriteBacklight(value));
    actions.push(BrightnessAction::Save(BrightnessConfig { auto: false, brightness: value }));
    assert(actions@ =~= seq![
        BrightnessAction::StopAuto,
        BrightnessAction::WriteBacklight(value),
        BrightnessAction::Save(BrightnessConfig { auto: false, brightness: value }),
    ]);
    Ok(actions)
}

/// What is done to let the display follow the light or not, by the setting that is kept, if it can
/// be read.
pub open spec fn auto_actions(enabled: bool, stored: Option<BrightnessConfig>) -> Seq<
    BrightnessAction,
> {
    seq![
        if enabled {
            BrightnessAction::StartAuto
        } else {
            BrightnessAction::StopAuto
        },
        BrightnessAction::Save(
            BrightnessConfig {
                auto: enabled,
                ..match stored {
                    Some(c) => c,
                    None => default_brightness(),
                }
            },
        ),
    ]
}

/// What is done to let the display follow the light or not.
pub fn set_auto_brightness(enabled: bool, stored: Option<BrightnessConfig>) -> (r: Vec<
    BrightnessAction,
>)
    ensures
        r@ == auto_actions(enabled, stored),
{
    let mut config = match stored {
        Some(c) => c,
        None => BrightnessConfig::default(),
    };
    config.auto = enabled;
    let mut actions: Vec<BrightnessAction> = Vec::new();
    actions.push(
        if enabled {
            BrightnessAction::StartAuto
        } else {
            BrightnessAction::StopAuto
        },
    );
    actions.push(BrightnessAction::Save(config));
    assert(actions@ =~= auto_actions(enabled, stored));
    actions
}

/// What is done at the start, by the setting that is kept, if it can be read.
pub open spec fn start_actions(stored: Option<BrightnessConfig>) -> Seq<BrightnessAction> {
    match stored {
        None => Seq::empty(),
        Some(c) => if c.auto {
            auto_actions(true, Some(c))
        } else {
            seq![BrightnessAction::WriteBacklight(c.brightness)]
        },
    }
}

/// What is done at the start, by the setting that is kept, if it can be read.
pub fn init_brightness(stored: Option<BrightnessConfig>) -> (r: Vec<BrightnessAction>)
    ensures
        r@ == match stored {
            None => Seq::empty(),
            Some(c) => if c.auto {
                auto_actions(true, Some(c))
            } else {
                seq![BrightnessAction::WriteBacklight(c.brightness)]
            },
        },
        r@ == start_actions(stored),
{
    match stored {
        None => Vec::new(),
        Some(c) => if c.auto {
            set_auto_brightness(true, Some(c))
        } else {
            let mut actions: Vec<BrightnessAction> = Vec::new();
            actions.push(BrightnessAction::WriteBacklight(c.brightness));
            assert(actions@ =~= seq![BrightnessAction::WriteBacklight(c.brightness)]);
            actions
        },
    }
}

/// What the file that sets the backlight is given.
pub fn backlight_text(value: u8) -> (r: String)
    ensures
        r@ == text::decimal(value as nat),
{
    text::decimal_text(value as u64)
}

/// The brightness in what its file held.
pub open spec fn brightness_value(raw: Seq<char>) -> Option<u8> {
    match text::u32_value(text::trimmed(raw)) {
        Some(v) => if v <= 0xff {
            Some(v as u8)
        } else {
            None
        },
        None => None,
    }
}

/// Reads the brightness out of what its file held.
pub fn parse_brightness_value(raw: &str) -> (r: Option<u8>)
    ensures
        r == brightness_value(raw@),
{
    let trimmed = text::trim(raw);
    match text::parse_u32(trimmed.as_str()) {
        Some(v) => if v <= 0xff {
            Some(v as u8)
        } else {
            None
        },
        None => None,
    }
}

/// Reads the light around the display out of what its file held.
pub fn read_ambient_light(raw: &str) -> (r: Option<u32>)
    ensures
        r == text::u32_value(text::trimmed(raw@)),
{
    let trimmed = text::trim(raw);
    text::parse_u32(trimmed.as_str())
}

/// What the clients are told of the light around the display, where it is new.
pub open spec fn light_news(last: Option<u32>, value: Option<u32>) -> Option<JsonModel> {
    match value {
        Some(v) => if last == value {
            None
        } else {
            Some(
                JsonModel::table().and(
                    "value"@,
                    JsonModel::Number(JsonNumber::Unsigned(v as u64)),
                ),
            )
        },
        None => None,
    }
}

/// What the clients are told of the light around the display: only what is new.
pub fn ambient_light_update(last: Option<u32>, value: Option<u32>) -> (r: Option<Json>)
    ensures
        match r {
            Some(data) => value matches Some(v) && last != value && data@
                == JsonModel::table().and(
                "value"@,
                JsonModel::Number(JsonNumber::Unsigned(v as u64)),
            ),
            None => value is None || last == value,
        },
        match r {
            Some(data) => light_news(last, value) == Some(data@),
            None => light_news(last, value) is None,
        },
{
    let v: u32 = match value {
        Some(v) => v,
        None => return None,
    };
    let known = match last {
        Some(l) => l == v,
        None => false,
    };
    if known {
        None
    } else {
        Some(Json::table().and("value", Json::unsigned(v as u64)))
    }
}

/// The middle part of the factory's curve. There the brightness for some light is
/// `297.479 - 19.3238 * ln |2219.95 - 182.881 * light|`, to the nearest whole number. It falls from
/// 200 to 50, and the number at a position `i` is the last light for which it is `51 + i` or more.
pub const STOCK_CURVE: [u32; 150] = [
    1955, 1857, 1764, 1676, 1592, 1512, 1436, 1365, 1296, 1232, 1170, 1112, 1056, 1003, 953, 906,
    861, 818, 777, 739, 702, 667, 634, 603, 573, 545, 518, 492, 468, 445, 423, 402, 383, 364, 346,
    329, 313, 298, 284, 270, 257, 245, 233, 222, 211, 201, 191, 182, 174, 166, 158, 150, 143, 137,
    130, 124, 119, 113, 108, 103, 99, 94, 90, 86, 82, 79, 76, 72, 69, 66, 64, 61, 58, 56, 54, 52,
    50, 48, 46, 44, 43, 41, 40, 38, 37, 36, 34, 33, 32, 31, 30, 29, 28, 27, 27, 26, 25, 24, 24, 23,
    23, 22, 22, 21, 21, 20, 20, 19, 19, 19, 18, 18, 18, 17, 17, 17, 16, 16, 16, 16, 16, 15, 15, 15,
    15, 15, 15, 14, 14, 14, 14, 14, 14, 14, 14, 13, 13, 13, 13, 13, 13, 13, 13, 13, 13, 13, 13, 13,
    13, 13,
];

/// How many of the first numbers of the curve some light does not go past.
pub open spec fn steps_above(als: u32, n: nat) -> nat
    decreases n,
{
    if n == 0 {
        0
    } else {
        steps_above(als, (n - 1) as nat) + if als <= STOCK_CURVE@[n - 1] {
            1nat
        } else {
            0nat
        }
    }
}

/// The brightness that the factory's curve has for some light.
pub open spec fn stock_brightness(als: u32) -> int {
    if als <= STOCK_ALS_LOW_THRESHOLD {
        STOCK_FLOOR as int
    } else if als >= STOCK_ALS_HIGH_THRESHOLD {
        STOCK_CEILING as int
    } else {
        STOCK_CEILING + steps_above(als, 150)
    }
}

proof fn lemma_steps_above(a: u32, b: u32, n: nat)
    requires
        a <= b,
    ensures
        steps_above(b, n) <= steps_above(a, n) <= n,
    decreases n,
{
    if n > 0 {
        lemma_steps_above(a, b, (n - 1) as nat);
    }
}

fn count_steps(als: u32) -> (r: i64)
    ensures
        r == steps_above(als, 150),
        0 <= r <= 150,
{
    let steps = STOCK_CURVE;
    let mut count: i64 = 0;
    let mut i: usize = 0;
    while i < 150
        invariant
            i <= 150,
            steps@ == STOCK_CURVE@,
            0 <= count <= i,
            count == steps_above(als, i as nat),
        decreases 150 - i,
    {
        if als <= steps[i] {
            count += 1;
        }
        i += 1;
    }
    count
}

/// A fraction to the nearest whole number.
pub open spec fn nearest(n: int, d: int) -> int {
    (2 * n + d) / (2 * d)
}

/// A number held between two others.
pub open spec fn clamped(n: int, lo: int, hi: int) -> int {
    if n < lo {
        lo
    } else if n > hi {
        hi
    } else {
        n
    }
}

/// The brightness that follows the light: the range of the factory's curve stretched to the range
/// of values that follow it, to the nearest value.
pub open spec fn auto_brightness(als: u32) -> int {
    let range = STOCK_FLOOR - STOCK_CEILING;
    let stretched = AUTO_MIN_BRIGHTNESS * range - (STOCK_FLOOR - stock_brightness(als)) * (
    AUTO_MIN_BRIGHTNESS - AUTO_MAX_BRIGHTNESS);
    clamped(nearest(stretched, range), AUTO_MAX_BRIGHTNESS as int, AUTO_MIN_BRIGHTNESS as int)
}

/// The brightness that follows the light.
pub fn als_to_brightness(als_raw: u32) -> (r: u8)
    ensures
        r == auto_brightness(als_raw),
        AUTO_MAX_BRIGHTNESS <= r <= AUTO_MIN_BRIGHTNESS,
{
    let stock: i64 = if als_raw <= STOCK_ALS_LOW_THRESHOLD {
        STOCK_FLOOR
    } else if als_raw >= STOCK_ALS_HIGH_THRESHOLD {
        STOCK_CEILING
    } else {
        STOCK_CEILING + count_steps(als_raw)
    };
    let stretched: i64 = 240 * 185 - (STOCK_FLOOR - stock) * 220;
    let n: i64 = 2 * stretched + 185;
    assert(nearest(stretched as int, 185) == n as int / 370);
    if n < 20 * 370 {
        return AUTO_MAX_BRIGHTNESS;
    }
    let value: i64 = n / 370;
    if value > 240 {
        AUTO_MIN_BRIGHTNESS
    } else {
        value as u8
    }
}

/// Numbers from the lowest up.
pub open spec fn ascending(s: Seq<u32>) -> Seq<u32> {
    s.sort_by(|x: u32, y: u32| x <= y)
}

/// The middle one of some numbers, the higher of two.
pub open spec fn median(s: Seq<u32>) -> Option<u32> {
    if s.len() == 0 {
        None
    } else {
        Some(ascending(s)[s.len() as int / 2])
    }
}

proof fn lemma_ascending_is(s: Seq<u32>, t: Seq<u32>)
    requires
        s.to_multiset() == t.to_multiset(),
        forall|i: int, j: int| 0 <= i < j < t.len() ==> t[i] <= t[j],
    ensures
        t == ascending(s),
{
    let leq = |x: u32, y: u32| x <= y;
    assert(vstd::relations::total_ordering(leq));
    s.lemma_sort_by_ensures(leq);
    assert(vstd::relations::sorted_by(t, leq));
    vstd::seq_lib::lemma_sorted_unique(t, ascending(s), leq);
}

/// The middle one of some readings.
pub fn median_of_samples(samples: &VecDeque<u32>) -> (r: Option<u32>)
    ensures
        r == median(samples@),
{
    if samples.len() == 0 {
        return None;
    }
    let mut sorted: Vec<u32> = Vec::new();
    let mut i: usize = 0;
    assert(samples@.take(0) =~= sorted@);
    while i < samples.len()
        invariant
            i <= samples.len(),
            sorted@.len() == i,
            sorted@.to_multiset() == samples@.take(i as int).to_multiset(),
            forall|a: int, b: int| 0 <= a < b < sorted@.len() ==> sorted@[a] <= sorted@[b],
        decreases samples.len() - i,
    {
        let x: u32 = samples[i];
        let mut at: usize = 0;
        while at < sorted.len() && sorted[at] < x
            invariant
                at <= sorted.len(),
                forall|k: int| 0 <= k < at ==> sorted@[k] < x,
            decreases sorted.len() - at,
        {
            at += 1;
        }
        proof {
            vstd::seq_lib::to_multiset_insert(sorted@, at as int, x);
            vstd::seq_lib::to_multiset_build(samples@.take(i as int), x);
            assert(samples@.take(i + 1) =~= samples@.take(i as int).push(x));
        }
        sorted.insert(at, x);
        i += 1;
    }
    assert(samples@.take(i as int) =~= samples@);
    proof {
        lemma_ascending_is(samples@, sorted@);
    }
    Some(sorted[sorted.len() / 2])
}

/// How far the brightness moves at a time: a fiftieth of the way to the nearest whole number, and
/// at least one.
pub open spec fn step_of(current: u8, target: u8) -> int {
    let diff = target - current;
    if diff >= 50 {
        (diff + 25) / 50
    } else if diff > 0 {
        1
    } else if diff <= -50 {
        -((-diff + 25) / 50)
    } else if diff < 0 {
        -1
    } else {
        0
    }
}

/// How far the brightness moves at a time.
pub fn step_fn(current: u8, target: u8) -> (r: i32)
    ensures
        r == step_of(current, target),
        -5 <= r <= 5,
{
    let diff: i32 = target as i32 - current as i32;
    if diff >= 50 {
        (diff + 25) / 50
    } else if diff > 0 {
        1
    } else if diff <= -50 {
        let up: i32 = (-diff + 25) / 50;
        -up
    } else if diff < 0 {
        -1
    } else {
        0
    }
}

/// The brightness after a step, which does not go past the target.
pub open spec fn moved(current: u8, target: u8, step: int) -> u8 {
    let next = current + step;
    if current == target || (step > 0 && target < next) || (step < 0 && target > next) {
        target
    } else {
        clamped(next, AUTO_MAX_BRIGHTNESS as int, AUTO_MIN_BRIGHTNESS as int) as u8
    }
}

/// The brightness after a step, which has to fit where it is taken.
pub fn next_value(current: u8, target: u8, step: i32) -> (r: u8)
    requires
        current != target ==> current + step <= i32::MAX,
    ensures
        r == moved(current, target, step as int),
{
    if current == target {
        return target;
    }
    let next: i32 = current as i32 + step;
    if step > 0 && (target as i32) < next {
        return target;
    }
    if step < 0 && (target as i32) > next {
        return target;
    }
    if next < 20 {
        AUTO_MAX_BRIGHTNESS
    } else if next > 240 {
        AUTO_MIN_BRIGHTNESS
    } else {
        next as u8
    }
}

/// What comes of one look at the light: the next brightness, the target and the step. The step
/// stays as long as the target does.
pub open spec fn ticked(
    samples: Seq<u32>,
    prev_target: Option<u8>,
    prev_step: i32,
    current: u8,
) -> Option<(u8, u8, i32)> {
    match median(samples) {
        None => None,
        Some(als) => {
            let target = auto_brightness(als) as u8;
            let step = if prev_target == Some(target) {
                prev_step
            } else {
                step_of(current, target) as i32
            };
            Some((moved(current, target, step as int), target, step))
        },
    }
}

/// Looks at the light once.
pub fn tick_auto_brightness(
    samples: &VecDeque<u32>,
    prev_target: Option<u8>,
    prev_step: i32,
    current_bl: u8,
) -> (r: Option<(u8, u8, i32)>)
    requires
        median(samples@) matches Some(als) ==> (prev_target == Some(
            auto_brightness(als) as u8,
        ) && prev_target != Some(current_bl) ==> current_bl + prev_step <= i32::MAX),
    ensures
        r == ticked(samples@, prev_target, prev_step, current_bl),
{
    let als: u32 = match median_of_samples(samples) {
        Some(m) => m,
        None => return None,
    };
    let target: u8 = als_to_brightness(als);
    let same_target = match prev_target {
        Some(t) => t == target,
        None => false,
    };
    let step: i32 = if same_target {
        prev_step
    } else {
        step_fn(current_bl, target)
    };
    let next: u8 = next_value(current_bl, target, step);
    Some((next, target, step))
}

/// What follows the light: the last readings, the target and the step.
pub struct AutoBrightness {
    samples: VecDeque<u32>,
    prev_target: Option<u8>,
    prev_step: i32,
}

/// What follows the light, apart from how it is stored.
#[verifier::ext_equal]
pub struct AutoModel {
    pub samples: Seq<u32>,
    pub prev_target: Option<u8>,
    pub prev_step: i32,
}

impl View for AutoBrightness {
    type V = AutoModel;

    closed spec fn view(&self) -> AutoModel {
        AutoModel {
            samples: self.samples@,
            prev_target: self.prev_target,
            prev_step: self.prev_step,
        }
    }
}

/// The readings with one more; the oldest makes room.
pub open spec fn with_sample(samples: Seq<u32>, als: u32) -> Seq<u32> {
    let all = samples.push(als);
    if all.len() > SMOOTHING_SAMPLES {
        all.drop_first()
    } else {
        all
    }
}

impl AutoModel {
    /// Few readings are kept, and the step is short.
    pub open spec fn well_formed(self) -> bool {
        self.samples.len() <= SMOOTHING_SAMPLES && -5 <= self.prev_step <= 5
    }
}

impl AutoBrightness {
    /// Nothing was read yet.
    pub fn new() -> (r: AutoBrightness)
        ensures
            r@ == (AutoModel { samples: Seq::empty(), prev_target: None, prev_step: 0 }),
            r@.well_formed(),
    {
        AutoBrightness { samples: VecDeque::new(), prev_target: None, prev_step: 0 }
    }

    /// Takes in a reading of the light.
    pub fn push_sample(&mut self, als_raw: u32)
        requires
            old(self)@.well_formed(),
        ensures
            final(self)@ == (AutoModel {
                samples: with_sample(old(self)@.samples, als_raw),
                ..old(self)@
            }),
            final(self)@.well_formed(),
    {
        let ghost before = self@;
        self.samples.push_back(als_raw);
        if self.samples.len() > SMOOTHING_SAMPLES {
            let _ = self.samples.pop_front();
        }
        assert(self@.samples =~= with_sample(before.samples, als_raw));
    }

    /// The brightness that is set next, where there is a reading.
    pub fn tick(&mut self, current_bl: u8) -> (r: Option<u8>)
        requires
            old(self)@.well_formed(),
        ensures
            match ticked(
                old(self)@.samples,
                old(self)@.prev_target,
                old(self)@.prev_step,
                current_bl,
            ) {
                Some((next, target, step)) => r == Some(next) && final(self)@ == (AutoModel {
                    prev_target: Some(target),
                    prev_step: step,
                    ..old(self)@
                }),
                None => r is None && final(self)@ == old(self)@,
            },
            final(self)@.well_formed(),
    {
        match tick_auto_brightness(
            &self.samples,
            self.prev_target,
            self.prev_step,
            current_bl,
        ) {
            Some((next, target, step)) => {
                self.prev_target = Some(target);
                self.prev_step = step;
                Some(next)
            },
            None => None,
        }
    }
}

/// A brightness that was written to the backlight reads back.
pub proof fn law_written_brightness_reads_back(value: u8)
    ensures
        brightness_value(text::decimal(value as nat)) == Some(value),
{
    text::law_decimal_reads_back(value as nat);
    text::lemma_decimal_digits(value as nat);
    let s = text::decimal(value as nat);
    assert(text::is_digit(s[0]));
    assert(text::is_digit(s[s.len() - 1]));
    assert(text::trimmed_start(s) == s);
    assert(text::trimmed_end(s) == s);
}

/// The values that follow the light stay in their range.
pub proof fn law_auto_brightness_stays_in_range(als: u32)
    ensures
        AUTO_MAX_BRIGHTNESS <= auto_brightness(als) <= AUTO_MIN_BRIGHTNESS,
        als <= STOCK_ALS_LOW_THRESHOLD ==> auto_brightness(als) == AUTO_MIN_BRIGHTNESS,
        als >= STOCK_ALS_HIGH_THRESHOLD ==> auto_brightness(als) == AUTO_MAX_BRIGHTNESS,
{
}

/// More light never makes the display darker.
pub proof fn law_more_light_is_no_darker(a: u32, b: u32)
    requires
        a <= b,
    ensures
        AUTO_MIN_BRIGHTNESS >= auto_brightness(a) >= auto_brightness(b) >= AUTO_MAX_BRIGHTNESS,
{
    lemma_steps_above(a, b, 150);
    let x = 240 * 185 - (235 - stock_brightness(a)) * 220;
    let y = 240 * 185 - (235 - stock_brightness(b)) * 220;
    assert(x >= y);
    assert(nearest(x, 185) == (2 * x + 185) / 370 && nearest(y, 185) == (2 * y + 185) / 370);
    assert(auto_brightness(a) == clamped(nearest(x, 185), 20, 240));
    assert(auto_brightness(b) == clamped(nearest(y, 185), 20, 240));
}

/// The readings that are kept once some more were taken in, one after the other.
pub open spec fn after_readings(samples: Seq<u32>, readings: Seq<u32>) -> Seq<u32>
    decreases readings.len(),
{
    if readings.len() == 0 {
        samples
    } else {
        with_sample(after_readings(samples, readings.drop_last()), readings.last())
    }
}

/// The newest reading is kept, behind the others. Of those that were there and those that were
/// taken in since, the ones that are kept are the last, in the order in which they came: all of
/// them while they are few, and as many as there is room for after that.
pub proof fn law_newest_readings_are_kept(samples: Seq<u32>, readings: Seq<u32>, als: u32)
    requires
        samples.len() <= SMOOTHING_SAMPLES,
    ensures
        with_sample(samples, als).last() == als,
        ({
            let all = samples + readings;
            let kept = after_readings(samples, readings);
            &&& kept.is_suffix_of(all)
            &&& kept.len() == if all.len() > SMOOTHING_SAMPLES {
                SMOOTHING_SAMPLES as nat
            } else {
                all.len()
            }
        }),
    decreases readings.len(),
{
    let all = samples + readings;
    let kept = after_readings(samples, readings);
    if readings.len() == 0 {
        assert(all =~= samples);
        assert(samples =~= samples.subrange(0, samples.len() as int));
    } else {
        let before = readings.drop_last();
        law_newest_readings_are_kept(samples, before, readings.last());
        let earlier = after_readings(samples, before);
        assert((samples + before).push(readings.last()) =~= all);
        assert(earlier =~= (samples + before).skip((samples + before).len() - earlier.len()));
        assert(kept =~= all.subrange(all.len() - kept.len(), all.len() as int));
    }
}

/// How many of some numbers are below another.
pub open spec fn count_below(s: Seq<u32>, m: u32) -> nat {
    s.filter(|x: u32| x < m).len()
}

/// How many of some numbers are above another.
pub open spec fn count_above(s: Seq<u32>, m: u32) -> nat {
    s.filter(|x: u32| x > m).len()
}

proof fn lemma_count_by_multiset(s: Seq<u32>, t: Seq<u32>, p: spec_fn(u32) -> bool)
    requires
        s.to_multiset() == t.to_multiset(),
    ensures
        s.filter(p).len() == t.filter(p).len(),
    decreases s.len(),
{
    broadcast use vstd::seq_lib::group_to_multiset_ensures;

    reveal(Seq::filter);
    assert(s.len() == s.to_multiset().len() && t.len() == t.to_multiset().len());
    if s.len() > 0 {
        let x = s.last();
        assert(s.contains(x));
        assert(t.to_multiset().count(x) > 0);
        assert(t.contains(x));
        let j = choose|j: int| 0 <= j < t.len() && t[j] == x;
        assert(s.drop_last() =~= s.remove(s.len() - 1));
        lemma_count_by_multiset(s.drop_last(), t.remove(j), p);
        let front = t.take(j);
        let back = t.skip(j + 1);
        assert(t =~= front.push(x) + back);
        assert(t.remove(j) =~= front + back);
        Seq::filter_distributes_over_add(front.push(x), back, p);
        Seq::filter_distributes_over_add(front, back, p);
        assert(front.push(x).drop_last() =~= front);
    }
}

proof fn lemma_count_at_most(t: Seq<u32>, p: spec_fn(u32) -> bool, lo: int, hi: int)
    requires
        0 <= lo <= hi <= t.len(),
        forall|i: int| 0 <= i < t.len() && p(#[trigger] t[i]) ==> lo <= i < hi,
    ensures
        t.filter(p).len() <= hi - lo,
    decreases t.len(),
{
    reveal(Seq::filter);
    if t.len() > 0 {
        let rest = t.drop_last();
        let last = t.len() - 1;
        assert forall|i: int| 0 <= i < rest.len() && p(#[trigger] rest[i]) implies lo <= i < hi by {
            assert(rest[i] == t[i]);
        }
        if p(t[last]) {
            lemma_count_at_most(rest, p, lo, last);
        } else if hi == t.len() {
            if lo == hi {
                lemma_count_at_most(rest, p, lo - 1, lo - 1);
            } else {
                lemma_count_at_most(rest, p, lo, hi - 1);
            }
        } else {
            lemma_count_at_most(rest, p, lo, hi);
        }
    }
}

/// The middle one of some readings is one of them, at most half of them are below it, and fewer
/// than half above it. So where all are the same, it is that one.
pub proof fn law_median_is_in_the_middle(s: Seq<u32>)
    ensures
        median(s) is None <==> s.len() == 0,
        median(s) matches Some(m) ==> {
            &&& s.contains(m)
            &&& 2 * count_below(s, m) <= s.len()
            &&& 2 * count_above(s, m) < s.len()
        },
        forall|v: u32|
            s.len() > 0 && (forall|i: int| 0 <= i < s.len() ==> #[trigger] s[i] == v)
                ==> #[trigger] median(s) == Some(v),
{
    broadcast use vstd::seq_lib::group_to_multiset_ensures;

    if s.len() > 0 {
        let leq = |x: u32, y: u32| x <= y;
        assert(vstd::relations::total_ordering(leq));
        s.lemma_sort_by_ensures(leq);
        let t = ascending(s);
        assert(t.len() == t.to_multiset().len() && s.len() == s.to_multiset().len());
        let k = s.len() as int / 2;
        let m = t[k];
        assert(t.contains(m));
        assert(t.to_multiset().count(m) > 0);
        assert(s.contains(m));
        let below = |x: u32| x < m;
        let above = |x: u32| x > m;
        assert forall|i: int| 0 <= i < t.len() && below(#[trigger] t[i]) implies 0 <= i < k by {
            if k < i {
                assert(leq(t[k], t[i]));
            }
        }
        assert forall|i: int| 0 <= i < t.len() && above(#[trigger] t[i]) implies k + 1 <= i
            < t.len() by {
            if i < k {
                assert(leq(t[i], t[k]));
            }
        }
        lemma_count_at_most(t, below, 0, k);
        lemma_count_at_most(t, above, k + 1, t.len() as int);
        lemma_count_by_multiset(s, t, below);
        lemma_count_by_multiset(s, t, above);
    }
}

/// As soon as as many readings of one light have come as are kept, they alone count.
pub proof fn law_steady_light_is_followed(samples: Seq<u32>, als: u32, readings: Seq<u32>)
    requires
        samples.len() <= SMOOTHING_SAMPLES,
        readings.len() >= SMOOTHING_SAMPLES,
        forall|i: int| 0 <= i < readings.len() ==> #[trigger] readings[i] == als,
    ensures
        median(after_readings(samples, readings)) == Some(als),
{
    law_newest_readings_are_kept(samples, readings, als);
    let all = samples + readings;
    let kept = after_readings(samples, readings);
    assert forall|i: int| 0 <= i < kept.len() implies #[trigger] kept[i] == als by {
        assert(kept[i] == all[all.len() - kept.len() + i]);
    }
    law_median_is_in_the_middle(kept);
}

/// A step in the direction of a target that follows the light comes closer to it and does not go
/// past it.
pub proof fn law_step_comes_closer(current: u8, target: u8, step: int)
    requires
        AUTO_MAX_BRIGHTNESS <= target <= AUTO_MIN_BRIGHTNESS,
        current < target ==> step > 0,
        current > target ==> step < 0,
    ensures
        current < target ==> current < moved(current, target, step) <= target,
        current > target ==> target <= moved(current, target, step) < current,
        current == target ==> moved(current, target, step) == target,
        AUTO_MAX_BRIGHTNESS <= moved(current, target, step) <= AUTO_MIN_BRIGHTNESS,
{
}

/// A step is a fiftieth of the way, as near as whole numbers come, and one where the way is short.
/// There is none where there is no way to go, and the way back takes the opposite one.
pub proof fn law_step_is_a_fiftieth_of_the_way(current: u8, target: u8)
    ensures
        current == target <==> step_of(current, target) == 0,
        current < target <==> step_of(current, target) > 0,
        -50 < target - current < 50 ==> -1 <= step_of(current, target) <= 1,
        target - current >= 50 || target - current <= -50 ==> -25 <= 50 * step_of(current, target)
            - (target - current) <= 25,
        step_of(target, current) == -step_of(current, target),
{
}

/// The values that follow the light divide their range as the factory's curve divides its own, as
/// near as whole numbers come.
pub proof fn law_curve_is_stretched(als: u32)
    ensures
        STOCK_CEILING <= stock_brightness(als) <= STOCK_FLOOR,
        -185 <= 2 * (185 * (auto_brightness(als) - 20) - 220 * (stock_brightness(als) - 50)) <= 185,
{
    lemma_steps_above(als, als, 150);
    let x = 240 * 185 - (235 - stock_brightness(als)) * 220;
    assert(nearest(x, 185) == (2 * x + 185) / 370);
    assert(auto_brightness(als) == clamped(nearest(x, 185), 20, 240));
}

/// A look at the light goes for the brightness that belongs to the middle one of the readings, and
/// keeps the step while that stays. At a new target the step is chosen anew, and the brightness
/// comes closer to the target, or is there.
pub proof fn law_tick_goes_for_the_light(
    samples: Seq<u32>,
    prev_target: Option<u8>,
    prev_step: i32,
    current: u8,
)
    ensures
        ticked(samples, prev_target, prev_step, current) is None <==> samples.len() == 0,
        ticked(samples, prev_target, prev_step, current) matches Some((next, target, step)) ==> {
            &&& median(samples) matches Some(als) && target == auto_brightness(als)
            &&& prev_target == Some(target) ==> step == prev_step
            &&& prev_target != Some(target) ==> {
                &&& current < target ==> step > 0 && current < next <= target
                &&& current > target ==> step < 0 && target <= next < current
                &&& current == target ==> step == 0 && next == target
            }
        },
{
    law_median_is_in_the_middle(samples);
    if let Some(als) = median(samples) {
        law_auto_brightness_stays_in_range(als);
        let target = auto_brightness(als) as u8;
        law_step_comes_closer(current, target, step_of(current, target));
    }
}

/// The brightness after so many looks at the same light.
pub open spec fn after_ticks(
    samples: Seq<u32>,
    prev_target: Option<u8>,
    prev_step: i32,
    current: u8,
    n: nat,
) -> u8
    decreases n,
{
    if n == 0 {
        current
    } else {
        match ticked(samples, prev_target, prev_step, current) {
            Some((next, target, step)) => after_ticks(
                samples,
                Some(target),
                step,
                next,
                (n - 1) as nat,
            ),
            None => current,
        }
    }
}

/// Where the light stays the same, the display comes to the brightness that belongs to it, wherever
/// it starts, and stays there.
pub proof fn law_steady_light_sets_the_brightness(samples: Seq<u32>, current: u8, n: nat)
    requires
        samples.len() > 0,
        n > 255,
    ensures
        median(samples) matches Some(als) && after_ticks(samples, None, 0, current, n)
            == auto_brightness(als),
{
    law_median_is_in_the_middle(samples);
    let als = median(samples)->0;
    law_auto_brightness_stays_in_range(als);
    let target = auto_brightness(als) as u8;
    let step = step_of(current, target);
    law_step_comes_closer(current, target, step);
    lemma_ticks_arrive(
        samples,
        moved(current, target, step),
        target,
        step as i32,
        (n - 1) as nat,
    );
}

proof fn lemma_ticks_arrive(samples: Seq<u32>, current: u8, target: u8, step: i32, n: nat)
    requires
        median(samples) matches Some(als) && target == auto_brightness(als),
        AUTO_MAX_BRIGHTNESS <= target <= AUTO_MIN_BRIGHTNESS,
        current < target ==> step > 0,
        current > target ==> step < 0,
        n >= target - current,
        n >= current - target,
    ensures
        after_ticks(samples, Some(target), step, current, n) == target,
    decreases n,
{
    if n > 0 {
        law_step_comes_closer(current, target, step as int);
        lemma_ticks_arrive(
            samples,
            moved(current, target, step as int),
            target,
            step,
            (n - 1) as nat,
        );
    }
}

/// To let the display follow the light or not is remembered, along with the brightness that was
/// set before.
pub proof fn law_following_the_light_is_remembered(enabled: bool, stored: Option<BrightnessConfig>)
    ensures
        auto_actions(enabled, stored).contains(BrightnessAction::StartAuto) <==> enabled,
        auto_actions(enabled, stored).contains(BrightnessAction::StopAuto) <==> !enabled,
        auto_actions(enabled, stored).last() matches BrightnessAction::Save(c) && c.auto == enabled
            && (stored matches Some(before) ==> c.brightness == before.brightness),
        forall|v: u8|
            !(#[trigger] auto_actions(enabled, stored).contains(
                BrightnessAction::WriteBacklight(v),
            )),
{
    let told = auto_actions(enabled, stored);
    assert(told[0] == if enabled {
        BrightnessAction::StartAuto
    } else {
        BrightnessAction::StopAuto
    });
}

/// The brightness after so many steps of the same length.
pub open spec fn after_steps(current: u8, target: u8, step: int, n: nat) -> u8
    decreases n,
{
    if n == 0 {
        current
    } else {
        after_steps(moved(current, target, step), target, step, (n - 1) as nat)
    }
}

/// From wherever it starts, the brightness arrives at a target that follows the light, and stays.
pub proof fn law_brightness_arrives(current: u8, target: u8, n: nat)
    requires
        AUTO_MAX_BRIGHTNESS <= target <= AUTO_MIN_BRIGHTNESS,
        n >= 255,
    ensures
        after_steps(current, target, step_of(current, target), n) == target,
{
    lemma_arrives(current, target, step_of(current, target), n);
}

proof fn lemma_arrives(current: u8, target: u8, step: int, n: nat)
    requires
        AUTO_MAX_BRIGHTNESS <= target <= AUTO_MIN_BRIGHTNESS,
        current < target ==> step > 0,
        current > target ==> step < 0,
        n >= target - current,
        n >= current - target,
    ensures
        after_steps(current, target, step, n) == target,
    decreases n,
{
    if n > 0 {
        law_step_comes_closer(current, target, step);
        lemma_arrives(moved(current, target, step), target, step, (n - 1) as nat);
    }
}

/// What the clients are told of the setting is the setting.
pub proof fn law_setting_is_told(c: BrightnessConfig)
    ensures
        brightness_json(c).flag_field("auto"@) == Some(c.auto),
        brightness_json(c).unsigned_field("brightness"@) matches Some(n) && n == c.brightness,
{
    reveal_strlit("auto");
    reveal_strlit("brightness");
    assert("auto"@.len() == 4 && "brightness"@.len() == 10);
    let d0 = JsonModel::table();
    crate::json::law_bare_object_has_no_member("auto"@);
    crate::json::law_bare_object_has_no_member("brightness"@);
    crate::json::law_member_is_found(d0, "auto"@, JsonModel::Bool(c.auto));
    let d1 = d0.and("auto"@, JsonModel::Bool(c.auto));
    crate::json::law_member_is_found(
        d1,
        "brightness"@,
        JsonModel::Number(JsonNumber::Unsigned(c.brightness as u64)),
    );
    let d2 = d1.and("brightness"@, JsonModel::Number(JsonNumber::Unsigned(c.brightness as u64)));
    assert(brightness_json(c) == d2);
}

/// A brightness that is set by hand is what the display gets at once and what it gets at the next
/// start, and the light has no say any more. Only zero is refused.
pub proof fn law_brightness_set_by_hand_stays(value: u8)
    ensures
        hand_actions(value) is None <==> value == 0,
        hand_actions(value) matches Some(done) ==> {
            &&& done.contains(BrightnessAction::StopAuto)
            &&& done.contains(BrightnessAction::WriteBacklight(value))
            &&& !done.contains(BrightnessAction::StartAuto)
            &&& forall|other: u8|
                other != value ==> !(#[trigger] done.contains(
                    BrightnessAction::WriteBacklight(other),
                ))
            &&& done.last() matches BrightnessAction::Save(kept) && start_actions(Some(kept))
                == seq![BrightnessAction::WriteBacklight(value)]
        },
{
    if let Some(done) = hand_actions(value) {
        assert(done[0] == BrightnessAction::StopAuto);
        assert(done[1] == BrightnessAction::WriteBacklight(value));
    }
}

/// A display that followed the light when it was switched off follows it again at the next start,
/// and nothing is done where no setting can be read.
pub proof fn law_display_follows_the_light_again(stored: Option<BrightnessConfig>)
    ensures
        auto_actions(true, stored).last() matches BrightnessAction::Save(kept) && start_actions(
            Some(kept),
        ).contains(BrightnessAction::StartAuto),
        auto_actions(false, stored).last() matches BrightnessAction::Save(kept) && !start_actions(
            Some(kept),
        ).contains(BrightnessAction::StartAuto),
        stored is None ==> start_actions(stored).len() == 0,
{
    if let BrightnessAction::Save(kept) = auto_actions(true, stored).last() {
        assert(start_actions(Some(kept))[0] == BrightnessAction::StartAuto);
    }
}

/// The clients are told a light that differs from the last one, and none other.
pub proof fn law_new_light_is_told(last: Option<u32>, value: Option<u32>)
    ensures
        light_news(last, value) is Some <==> value is Some && value != last,
        light_news(last, value) matches Some(data) ==> (data.unsigned_field("value"@) matches Some(
            n,
        ) && value matches Some(v) && n == v),
{
    if let Some(v) = value {
        reveal_strlit("value");
        let d0 = JsonModel::table();
        crate::json::law_bare_object_has_no_member("value"@);
        crate::json::law_member_is_found(
            d0,
            "value"@,
            JsonModel::Number(JsonNumber::Unsigned(v as u64)),
        );
        let d1 = d0.and("value"@, JsonModel::Number(JsonNumber::Unsigned(v as u64)));
    }
}

/// The numbers of the curve fall from each to the next.
#[verifier::spinoff_prover]
#[verifier::rlimit(40)]
proof fn lemma_curve_falls()
    ensures
        falls(STOCK_CURVE@),
{
    let c = STOCK_CURVE@;
    assert(c.len() == 150);
    assert forall|i: int| 0 <= i < 149 implies #[trigger] c[i] >= c[i + 1] by {}
}

/// Each of some numbers is at least the next.
spec fn falls(c: Seq<u32>) -> bool {
    forall|i: int| 0 <= i < c.len() - 1 ==> #[trigger] c[i] >= c[i + 1]
}

proof fn lemma_falls_from(c: Seq<u32>, i: int, j: int)
    requires
        falls(c),
        0 <= i <= j < c.len(),
    ensures
        c[i] >= c[j],
    decreases j - i,
{
    if i < j {
        lemma_falls_from(c, i, j - 1);
        assert(c[j - 1] >= c[j - 1 + 1]);
    }
}

proof fn lemma_steps_place(c: Seq<u32>, als: u32, n: nat) -> (k: nat)
    requires
        falls(c),
        n <= c.len(),
    ensures
        k <= n,
        forall|i: int| 0 <= i < k ==> als <= #[trigger] c[i],
        forall|i: int| k <= i < n ==> als > #[trigger] c[i],
    decreases n,
{
    if n == 0 {
        0
    } else if als <= c[n - 1] {
        assert forall|i: int| 0 <= i < n implies als <= #[trigger] c[i] by {
            lemma_falls_from(c, i, n - 1);
        }
        n
    } else {
        lemma_steps_place(c, als, (n - 1) as nat)
    }
}

proof fn lemma_steps_up_to(c: Seq<u32>, als: u32, k: nat, n: nat)
    requires
        c == STOCK_CURVE@,
        k <= n <= c.len(),
        forall|i: int| 0 <= i < k ==> als <= #[trigger] c[i],
        forall|i: int| k <= i < n ==> als > #[trigger] c[i],
    ensures
        steps_above(als, n) == k,
    decreases n,
{
    if n > 0 {
        let last = c[n - 1];
        if k == n {
            lemma_steps_up_to(c, als, (n - 1) as nat, (n - 1) as nat);
        } else {
            lemma_steps_up_to(c, als, k, (n - 1) as nat);
        }
    }
}

/// Between its two ends, the number of the curve at a position is the last light for which the
/// display has that many steps above the brightest value, or more.
pub proof fn law_curve_says_the_last_light(als: u32, i: int)
    requires
        STOCK_ALS_LOW_THRESHOLD < als < STOCK_ALS_HIGH_THRESHOLD,
        0 <= i < 150,
    ensures
        als <= STOCK_CURVE@[i] <==> stock_brightness(als) >= 51 + i,
{
    lemma_curve_falls();
    let c = STOCK_CURVE@;
    let k = lemma_steps_place(c, als, 150);
    lemma_steps_up_to(c, als, k, 150);
    assert(als <= c[i] <==> i < k);
}

/// A display of which nothing is known follows the light.
pub proof fn law_unknown_display_follows_the_light()
    ensures
        default_brightness().auto,
        start_actions(Some(default_brightness())).contains(BrightnessAction::StartAuto),
{
    assert(start_actions(Some(default_brightness()))[0] == BrightnessAction::StartAuto);
}

} // verus!
