pub mod bytes;
pub mod random;
pub mod paths;
pub mod codec;
pub mod text;
pub mod clock;
pub mod keyed;
pub mod node;
pub mod dag;
pub mod legacy;
pub mod i18n;
pub mod token;
pub mod gossip;
