//! A display: the monitor that nog lays windows out on, the part of it that
//! the windows get, and the window manager of its workspaces.
use vstd::prelude::*;
use crate::config::Config;
use crate::platform::{Area, MonitorId, Position, Size};
use crate::window_manager::WindowManager;

verus! {

#[derive(Debug, Clone)]
pub struct DisplayId(pub String);

/// A display, with its monitor given by the monitor's id and work area.
#[derive(Debug)]
pub struct Display {
    pub id: DisplayId,
    pub monitor_id: MonitorId,
    /// The work area of the monitor: all of it but the task bar.
    pub work_area: Area,
    pub wm: WindowManager,
}

/// The area that the windows of a display get out of the work area of its
/// monitor: the app bar, where it is shown, takes its height off the top; where
/// the task bar is removed, its 40 pixels are given to the windows.
pub open spec fn spec_render_area(work_area: Area, config: Config) -> Area {
    let bar = if config.display_app_bar { config.bar_height as int } else { 0 };
    let freed = if config.remove_task_bar { 40int } else { 0 };
    Area {
        pos: Position { x: work_area.pos.x, y: (work_area.pos.y + bar) as isize },
        size: Size { width: work_area.size.width, height: (work_area.size.height - bar + freed) as usize },
    }
}

/// The work area `work_area` leaves room for what `config` takes off it and
/// gives to it.
pub open spec fn render_area_fits(work_area: Area, config: Config) -> bool {
    &&& config.display_app_bar ==> config.bar_height <= work_area.size.height
        && config.bar_height <= isize::MAX
        && work_area.pos.y + config.bar_height <= isize::MAX
    &&& config.remove_task_bar ==> work_area.size.height
        - (if config.display_app_bar { config.bar_height as int } else { 0 }) + 40 <= usize::MAX
}

/// The windows get the work area but for what the shown app bar takes off its
/// top (its height, moving the area down by as much), plus the 40 pixels of a
/// removed task bar at the bottom, whether or not the app bar is shown.
pub proof fn lemma_render_area_parts(work_area: Area, config: Config)
    ensures
        ({
            let shown = Config { display_app_bar: true, ..config };
            let hidden = Config { display_app_bar: false, ..config };
            let kept = Config { remove_task_bar: false, ..config };
            let removed = Config { remove_task_bar: true, ..config };
            let plain = Config { display_app_bar: false, remove_task_bar: false, ..config };
            &&& spec_render_area(work_area, plain) == work_area
            &&& (render_area_fits(work_area, removed) ==> {
                let a = spec_render_area(work_area, removed);
                let b = spec_render_area(work_area, kept);
                &&& a.size.height == b.size.height + 40
                &&& a.size.width == b.size.width
                &&& a.pos == b.pos
            })
            &&& (render_area_fits(work_area, shown) && render_area_fits(work_area, hidden) ==> {
                let a = spec_render_area(work_area, shown);
                let b = spec_render_area(work_area, hidden);
                &&& a.pos.y == b.pos.y + config.bar_height
                &&& a.pos.x == b.pos.x
                &&& a.size.height + config.bar_height == b.size.height
                &&& a.size.width == b.size.width
            })
        }),
{
    let shown = Config { display_app_bar: true, ..config };
    let hidden = Config { display_app_bar: false, ..config };
    let kept = Config { remove_task_bar: false, ..config };
    let removed = Config { remove_task_bar: true, ..config };
    let plain = Config { display_app_bar: false, remove_task_bar: false, ..config };
    assert(spec_render_area(work_area, plain) == work_area);
    if render_area_fits(work_area, removed) {
        assert(render_area_fits(work_area, kept));
        let a = spec_render_area(work_area, removed);
        let b = spec_render_area(work_area, kept);
        assert(a.size.height == b.size.height + 40);
        assert(a.pos == b.pos);
    }
    if render_area_fits(work_area, shown) && render_area_fits(work_area, hidden) {
        let a = spec_render_area(work_area, shown);
        let b = spec_render_area(work_area, hidden);
        assert(a.pos.y == b.pos.y + config.bar_height);
        assert(a.size.height + config.bar_height == b.size.height);
    }
}

impl Display {
    /// The area on the display where the windows are rendered.
    pub fn get_render_area(&self, config: &Config) -> (r: Area)
        requires
            render_area_fits(self.work_area, *config),
        ensures
            r == spec_render_area(self.work_area, *config),
    {
        let mut area = self.work_area;
        if config.display_app_bar {
            area.pos.y = area.pos.y + config.bar_height as isize;
            area.size.height = area.size.height - config.bar_height as usize;
        }
        if config.remove_task_bar {
            area.size.height = area.size.height + 40;
        }
        area
    }
}

} // verus!
