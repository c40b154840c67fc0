pub mod notifications;
