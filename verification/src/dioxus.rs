/// Logger filter construction for Dioxus applications.
pub mod logger;
