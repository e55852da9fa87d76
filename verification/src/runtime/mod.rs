//! The light's running state: what each request does to it, what it asks of
//! the renderer, and what is published and kept from it.
use std::collections::HashMap;
use vstd::prelude::*;

use crate::model::{Rgb, SceneSnapshot};
use crate::persistence::PersistedState;

pub mod reload;
pub mod timed;

verus! {

/// What the light is running.
pub enum ActiveScene {
    /// Nothing: the renderer shows the plain colour.
    Idle,
    /// The layers of the active scene, composited; their brightness follows
    /// the light's.
    Running,
    /// A timed effect that ends at the given Unix time.
    Timed { name: String, end_unix_timestamp_sec: u64 },
}

/// The light's state.
pub struct SceneState {
    pub on: bool,
    pub brightness: u8,
    pub color: Rgb,
    pub scene: ActiveScene,
}

/// A command to the renderer.
#[derive(Clone, Copy, Debug, PartialEq, Eq, Structural)]
pub enum RenderCommand {
    SetColor(Rgb),
    SetBrightness(u8),
    SetOnOff(bool),
    Halt,
}

/// What a change asks of the render side.
#[derive(Clone, Copy, Debug, PartialEq, Eq, Structural)]
pub enum RenderStep {
    /// Send a command to the renderer.
    Send(RenderCommand),
    /// Set the live brightness of the running layers.
    SetLiveBrightness(u8),
}

/// The name of the effect that `scene` runs, if any: the composited layers
/// are called `custom`.
pub open spec fn running_effect(scene: ActiveScene) -> Option<Seq<char>> {
    match scene {
        ActiveScene::Idle => None,
        ActiveScene::Running => Some(seq!['c', 'u', 's', 't', 'o', 'm']),
        ActiveScene::Timed { name, .. } => Some(name@),
    }
}

/// When the effect that `scene` runs ends, if it is timed.
pub open spec fn effect_end(scene: ActiveScene) -> Option<u64> {
    match scene {
        ActiveScene::Timed { end_unix_timestamp_sec, .. } => Some(end_unix_timestamp_sec),
        _ => None,
    }
}

/// An optional string by its characters.
pub open spec fn opt_view(s: Option<String>) -> Option<Seq<char>> {
    match s {
        Some(x) => Some(x@),
        None => None,
    }
}

/// The brightness that the running layers show: none while the light is off.
pub open spec fn shown_brightness(on: bool, brightness: u8) -> u8 {
    if on {
        brightness
    } else {
        0
    }
}

/// The running effect's name.
fn effect_name_of(scene: &ActiveScene) -> (r: Option<String>)
    ensures
        opt_view(r) == running_effect(*scene),
{
    match scene {
        ActiveScene::Idle => None,
        ActiveScene::Running => {
            proof {
                reveal_strlit("custom");
                assert("custom"@ =~= seq!['c', 'u', 's', 't', 'o', 'm']);
            }
            Some(String::from_str("custom"))
        },
        ActiveScene::Timed { name, .. } => Some(name.clone()),
    }
}

impl SceneState {
    /// The state restored from what was kept: nothing runs yet.
    pub fn new(initial: &PersistedState) -> (s: Self)
        ensures
            s.on == initial.on,
            s.brightness == initial.brightness,
            s.color == initial.color,
            s.scene is Idle,
    {
        SceneState {
            on: initial.on,
            brightness: initial.brightness,
            color: initial.color,
            scene: ActiveScene::Idle,
        }
    }

    /// Set the colour; this switches the light on. The renderer is told only
    /// when nothing runs.
    pub fn set_color(&mut self, color: Rgb) -> (r: Option<RenderCommand>)
        ensures
            final(self).color == color,
            final(self).on,
            final(self).brightness == old(self).brightness,
            final(self).scene == old(self).scene,
            r == (if old(self).scene is Idle {
                Some(RenderCommand::SetColor(color))
            } else {
                None::<RenderCommand>
            }),
    {
        self.color = color;
        self.on = true;
        match self.scene {
            ActiveScene::Idle => Some(RenderCommand::SetColor(color)),
            _ => None,
        }
    }

    /// Set the brightness: the running layers follow it live, else the
    /// renderer is told.
    pub fn set_brightness(&mut self, brightness: u8) -> (r: RenderStep)
        ensures
            final(self).brightness == brightness,
            final(self).on == old(self).on,
            final(self).color == old(self).color,
            final(self).scene == old(self).scene,
            r == (if old(self).scene is Running {
                RenderStep::SetLiveBrightness(brightness)
            } else {
                RenderStep::Send(RenderCommand::SetBrightness(brightness))
            }),
    {
        self.brightness = brightness;
        match self.scene {
            ActiveScene::Running => RenderStep::SetLiveBrightness(brightness),
            _ => RenderStep::Send(RenderCommand::SetBrightness(brightness)),
        }
    }

    /// Switch the light on or off: the running layers fade to the brightness
    /// they should show, else the renderer is told.
    pub fn set_on_off(&mut self, on: bool) -> (r: RenderStep)
        ensures
            final(self).on == on,
            final(self).brightness == old(self).brightness,
            final(self).color == old(self).color,
            final(self).scene == old(self).scene,
            r == (if old(self).scene is Running {
                RenderStep::SetLiveBrightness(shown_brightness(on, old(self).brightness))
            } else {
                RenderStep::Send(RenderCommand::SetOnOff(on))
            }),
    {
        self.on = on;
        match self.scene {
            ActiveScene::Running => RenderStep::SetLiveBrightness(
                if on {
                    self.brightness
                } else {
                    0
                },
            ),
            _ => RenderStep::Send(RenderCommand::SetOnOff(on)),
        }
    }

    /// Stop whatever runs and blank the renderer.
    pub fn halt(&mut self) -> (r: RenderCommand)
        ensures
            final(self).scene is Idle,
            final(self).on == old(self).on,
            final(self).brightness == old(self).brightness,
            final(self).color == old(self).color,
            r == RenderCommand::Halt,
    {
        self.scene = ActiveScene::Idle;
        RenderCommand::Halt
    }

    /// Stop whatever runs; the renderer goes back to the plain colour, on or
    /// off as the light is.
    pub fn stop_effect(&mut self) -> (r: RenderCommand)
        ensures
            final(self).scene is Idle,
            final(self).on == old(self).on,
            final(self).brightness == old(self).brightness,
            final(self).color == old(self).color,
            r == RenderCommand::SetOnOff(old(self).on),
    {
        self.scene = ActiveScene::Idle;
        RenderCommand::SetOnOff(self.on)
    }

    /// The composited layers now run.
    pub fn start_running(&mut self)
        ensures
            final(self).scene is Running,
            final(self).on == old(self).on,
            final(self).brightness == old(self).brightness,
            final(self).color == old(self).color,
    {
        self.scene = ActiveScene::Running;
    }

    /// The brightness that newly started layers begin at.
    pub fn reload_brightness(&self) -> (r: u8)
        ensures
            r == shown_brightness(self.on, self.brightness),
    {
        if self.on {
            self.brightness
        } else {
            0
        }
    }

    /// What listeners are told of this state.
    pub fn snapshot(&self) -> (r: SceneSnapshot)
        ensures
            r.on == self.on,
            r.brightness == self.brightness,
            r.color == self.color,
            opt_view(r.active_effect) == running_effect(self.scene),
            r.light_effect_end_unix_timestamp_sec == effect_end(self.scene),
    {
        let end = match &self.scene {
            ActiveScene::Timed { end_unix_timestamp_sec, .. } => Some(*end_unix_timestamp_sec),
            _ => None,
        };
        SceneSnapshot {
            on: self.on,
            brightness: self.brightness,
            color: self.color,
            active_effect: effect_name_of(&self.scene),
            light_effect_end_unix_timestamp_sec: end,
        }
    }

    /// What is kept of this state across a restart; the runtime holds no
    /// signal overrides, so none are kept.
    pub fn extract_persisted(&self) -> (r: PersistedState)
        ensures
            r.on == self.on,
            r.brightness == self.brightness,
            r.color == self.color,
            opt_view(r.active_effect) == running_effect(self.scene),
            r.signal_colors@ == Map::<String, Rgb>::empty(),
            r.signal_scripts@ == Map::<String, String>::empty(),
    {
        PersistedState {
            on: self.on,
            brightness: self.brightness,
            color: self.color,
            active_effect: effect_name_of(&self.scene),
            signal_colors: HashMap::new(),
            signal_scripts: HashMap::new(),
        }
    }
}

} // verus!
