//! Power-mode and fan control for the AXB35-02 embedded controller: the
//! sysfs attribute formats, the interactive controls, the sensor history
//! and the reports.
pub mod app;
pub mod history;
pub mod report;
pub mod sysfs;
pub mod text;
