pub mod kitten;
