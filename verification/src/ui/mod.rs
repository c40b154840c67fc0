pub mod selection;
pub mod tabs;
pub mod viewport;
pub mod timing;
