//! Metric sampling and animation scheduling for a running-cat load indicator.
//!
//! Measured quantities are integers in thousandths of their unit: a CPU
//! load of 12.5 % is `12_500`, a threshold of 1000 MHz is `1_000_000`,
//! 15 frames per second is `15_000`, 45 degrees Celsius is `45_000`. The
//! per-core frequencies read from the kernel stay in whole MHz.
//!
//! - [`config`]: validated settings, frame-rate interpolation, start-up load
//! - [`smoother`]: moving average over a bounded window
//! - [`animation`]: sleep decision and frame clock
//! - [`scheduler`]: the decisions of the tray's event loop
//! - [`sysinfo`]: frequency and temperature from kernel file contents
//! - [`theme`]: theme colours from the desktop's theme files
//! - [`sprite`], [`cache`], [`icon`]: bitmaps, the recolour cache, the icon
//! - [`lockfile`]: single-instance lock files
//! - [`settings`]: the settings protocol's actions and names
//! - [`text`]: byte-level trimming, numbers and search

pub mod constants;
pub mod text;
pub mod config;
pub mod smoother;
pub mod sysinfo;
pub mod animation;
pub mod scheduler;
pub mod theme;
pub mod sprite;
pub mod cache;
pub mod icon;
pub mod lockfile;
pub mod settings;
pub mod paths;
