pub mod configfile;
