//! Timed effects started from a voice assistant: a colour loop, falling
//! asleep and waking up. Each switches the light on and runs until its end
//! time.
use vstd::prelude::*;

use super::{ActiveScene, SceneState};
use crate::model::Rgb;

verus! {

/// Cycle through `colors`, starting from `start_color`, for `duration` seconds.
pub struct ColorLoop {
    pub duration: u64,
    pub start_color: Rgb,
    pub colors: Vec<Rgb>,
}

/// Dim from `start_brightness` to `target_color` over `duration` seconds.
pub struct Sleep {
    pub duration: u64,
    pub start_brightness: u8,
    pub target_color: Rgb,
}

/// Brighten from `start_color` to `end_brightness` over `duration` seconds.
pub struct Wake {
    pub duration: u64,
    pub end_brightness: u8,
    pub start_color: Rgb,
}

/// The colours of the loop: red, orange, yellow, green, blue, indigo, violet.
pub open spec fn loop_colors() -> Seq<Rgb> {
    seq![
        Rgb { r: 255, g: 0, b: 0 },
        Rgb { r: 255, g: 127, b: 0 },
        Rgb { r: 255, g: 255, b: 0 },
        Rgb { r: 0, g: 255, b: 0 },
        Rgb { r: 0, g: 0, b: 255 },
        Rgb { r: 75, g: 0, b: 130 },
        Rgb { r: 148, g: 0, b: 211 },
    ]
}

/// The running timed effect `name`, ending at `end`.
pub open spec fn timed(name: Seq<char>, end: u64, scene: ActiveScene) -> bool {
    scene matches ActiveScene::Timed { name: n, end_unix_timestamp_sec: e } && n@ == name
        && e == end
}

impl SceneState {
    /// Start the colour loop at time `now`: the light goes on and the loop
    /// starts from the current colour.
    pub fn start_color_loop(&mut self, now: u64, duration: u64) -> (r: ColorLoop)
        requires
            now + duration <= u64::MAX,
        ensures
            final(self).on,
            final(self).brightness == old(self).brightness,
            final(self).color == old(self).color,
            timed("colorLoop"@, (now + duration) as u64, final(self).scene),
            r.duration == duration,
            r.start_color == old(self).color,
            r.colors@ == loop_colors(),
    {
        self.on = true;
        self.scene = ActiveScene::Timed {
            name: String::from_str("colorLoop"),
            end_unix_timestamp_sec: now + duration,
        };
        let colors = vec![
            Rgb::new(255, 0, 0),
            Rgb::new(255, 127, 0),
            Rgb::new(255, 255, 0),
            Rgb::new(0, 255, 0),
            Rgb::new(0, 0, 255),
            Rgb::new(75, 0, 130),
            Rgb::new(148, 0, 211),
        ];
        assert(colors@ =~= loop_colors());
        ColorLoop { duration, start_color: self.color, colors }
    }

    /// Start falling asleep at time `now`: the light goes on and dims from
    /// the current brightness to black.
    pub fn start_sleep(&mut self, now: u64, duration: u64) -> (r: Sleep)
        requires
            now + duration <= u64::MAX,
        ensures
            final(self).on,
            final(self).brightness == old(self).brightness,
            final(self).color == old(self).color,
            timed("sleep"@, (now + duration) as u64, final(self).scene),
            r.duration == duration,
            r.start_brightness == old(self).brightness,
            r.target_color == (Rgb { r: 0, g: 0, b: 0 }),
    {
        self.on = true;
        self.scene = ActiveScene::Timed {
            name: String::from_str("sleep"),
            end_unix_timestamp_sec: now + duration,
        };
        Sleep { duration, start_brightness: self.brightness, target_color: Rgb::black() }
    }

    /// Start waking up at time `now`: the light goes on and brightens from
    /// the current colour to the current brightness.
    pub fn start_wake(&mut self, now: u64, duration: u64) -> (r: Wake)
        requires
            now + duration <= u64::MAX,
        ensures
            final(self).on,
            final(self).brightness == old(self).brightness,
            final(self).color == old(self).color,
            timed("wake"@, (now + duration) as u64, final(self).scene),
            r.duration == duration,
            r.end_brightness == old(self).brightness,
            r.start_color == old(self).color,
    {
        self.on = true;
        self.scene = ActiveScene::Timed {
            name: String::from_str("wake"),
            end_unix_timestamp_sec: now + duration,
        };
        Wake { duration, end_brightness: self.brightness, start_color: self.color }
    }
}

} // verus!
