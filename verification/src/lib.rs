//! Verified core of the fiscal document converter: text model, parsers,
//! layout mappers, exporters and licensing decisions.
pub mod calendar;
pub mod document;
pub mod exporters;
pub mod faturas;
pub mod faturas_c140;
pub mod faturas_export;
pub mod faturas_index;
pub mod faturas_process;
pub mod faturas_sped;
pub mod faturas_text;
pub mod faturas_txt;
pub mod files;
pub mod layout;
pub mod legacy_import;
pub mod license_domain;
pub mod license_json;
pub mod license_models;
pub mod license_service;
pub mod licensing;
pub mod local_license;
pub mod legacy_pipe;
pub mod money;
pub mod nfe_invoice;
pub mod nfe_parse;
pub mod nfse_parse;
pub mod nfse_route;
pub mod numbers;
pub mod prestados;
pub mod prestados_sp;
pub mod rules;
pub mod sped;
pub mod sped_blocks;
pub mod sped_merge;
pub mod standard_xml;
pub mod text;
pub mod xml_tree;
