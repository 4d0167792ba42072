pub mod dto;
pub mod ports;
pub mod usecase;
pub mod usecase_impl;

pub use dto::{EdidSummary, GetMonitorsError, GetMonitorsRequest, GetMonitorsResponse, MonitorIdentity};
pub use ports::{
    DdcDiscoveredMonitor, DiscoveredEdid, EdidDiscoveredMonitor, GetDdcMonitorsPort,
    GetEdidMonitorsPort, GetMonitorsPortError,
};
pub use usecase::GetMonitorsUseCase;
