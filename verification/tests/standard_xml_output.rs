use integra_desktop::document::{ConversionProfile, FieldAction, FieldRule, NfseDocument, Party};
use integra_desktop::nfse_route::StandardizeXmlOptions;
use integra_desktop::standard_xml::{
    export_document_to_standard_xml, standardize_document_for_xml, StandardXmlAmounts,
};

fn options(target: &str) -> StandardizeXmlOptions {
    StandardizeXmlOptions {
        target: target.into(),
        remove_iss_aliquota: None,
        remove_iss_value: None,
        keep_only_iss_retido: None,
        remove_incompatible_tags: None,
        apply_profile_rules: None,
        remove_codigo_verificacao: None,
        remove_tomador_endereco: None,
        remove_prestador_im: None,
        remove_tomador_im: None,
        remove_cnae: None,
        remove_discriminacao: None,
        remove_info_adicional: None,
    }
}

fn document() -> NfseDocument {
    let mut prestador = Party::empty();
    prestador.documento = "12345678000190".into();
    prestador.inscricao_municipal = Some("999".into());
    let mut tomador = Party::empty();
    tomador.nome = "Cliente & Filhos".into();
    tomador.documento = "12345678909".into();
    tomador.endereco = Some("Rua A".into());
    NfseDocument {
        id: "n\"1".into(),
        file_name: "a.xml".into(),
        provider: "x".into(),
        provider_friendly: "x".into(),
        layout: "abrasf_v2".into(),
        numero: "123".into(),
        serie: " 1 ".into(),
        emissao: "2026-03-19".into(),
        competencia: "".into(),
        chave: "ABC".into(),
        municipio_codigo: "2927408".into(),
        municipio_nome: "SALVADOR".into(),
        item_lista_servico: "0101".into(),
        codigo_cnae: Some("6201".into()),
        discriminacao: "Serviço <teste>".into(),
        info_adic: "info".into(),
        prestador,
        tomador,
        iss_retido: true,
        warnings: vec!["w".into()],
    }
}

fn amounts() -> StandardXmlAmounts {
    StandardXmlAmounts {
        valor_servicos: "100.00".into(),
        base_calculo: "100.00".into(),
        valor_iss: "5.00".into(),
        aliquota: "0.050000".into(),
        valor_liquido: "95.00".into(),
        valor_pis: "0.00".into(),
        valor_cofins: "0.00".into(),
        valor_inss: "0.00".into(),
        valor_ir: "0.00".into(),
    }
}

#[test]
fn standard_xml_is_written_in_order() {
    let xml = export_document_to_standard_xml(&document(), &amounts(), &options("abrasf_v2"));
    let expected = [
        "<?xml version=\"1.0\" encoding=\"UTF-8\"?>\n",
        "<CompNfse xmlns=\"http://www.abrasf.org.br/nfse.xsd\" versao=\"2.04\">\n",
        "  <Nfse>\n",
        "    <InfNfse Id=\"n&quot;1\">\n",
        "      <Numero>123</Numero>\n",
        "      <CodigoVerificacao>ABC</CodigoVerificacao>\n",
        "      <DataEmissao>2026-03-19</DataEmissao>\n",
        "      <Servico>\n",
        "        <Valores>\n",
        "          <ValorServicos>100.00</ValorServicos>\n",
        "          <BaseCalculo>100.00</BaseCalculo>\n",
        "          <ValorIss>5.00</ValorIss>\n",
        "          <Aliquota>0.050000</Aliquota>\n",
        "          <ValorLiquidoNfse>95.00</ValorLiquidoNfse>\n",
        "          <ValorPis>0.00</ValorPis>\n",
        "          <ValorCofins>0.00</ValorCofins>\n",
        "          <ValorInss>0.00</ValorInss>\n",
        "          <ValorIr>0.00</ValorIr>\n",
        "          <IssRetido>1</IssRetido>\n",
        "        </Valores>\n",
        "        <ItemListaServico>0101</ItemListaServico>\n",
        "        <CodigoCnae>6201</CodigoCnae>\n",
        "        <Discriminacao>Serviço &lt;teste&gt;</Discriminacao>\n",
        "        <CodigoMunicipio>2927408</CodigoMunicipio>\n",
        "      </Servico>\n",
        "      <PrestadorServico>\n",
        "        <Cnpj>12345678000190</Cnpj>\n",
        "        <InscricaoMunicipal>999</InscricaoMunicipal>\n",
        "      </PrestadorServico>\n",
        "      <TomadorServico>\n",
        "        <IdentificacaoTomador>\n",
        "          <CpfCnpj>\n",
        "            <Cpf>12345678909</Cpf>\n",
        "          </CpfCnpj>\n",
        "        </IdentificacaoTomador>\n",
        "        <RazaoSocial>Cliente &amp; Filhos</RazaoSocial>\n",
        "      </TomadorServico>\n",
        "    </InfNfse>\n",
        "  </Nfse>\n",
        "</CompNfse>\n",
    ]
    .concat();
    assert_eq!(xml, expected);
}

#[test]
fn standard_xml_options_drop_tags() {
    let mut o = options("abrasf_v1");
    o.keep_only_iss_retido = Some(true);
    o.remove_incompatible_tags = Some(false);
    let xml = export_document_to_standard_xml(&document(), &amounts(), &o);
    assert!(xml.contains("<CompNfse xmlns=\"http://www.abrasf.org.br/nfse.xsd\">\n"));
    assert!(!xml.contains("<ValorIss>"));
    assert!(!xml.contains("<Aliquota>"));
    assert!(xml.contains("        <EnderecoLivre>Rua A</EnderecoLivre>\n"));
    let s = export_document_to_standard_xml(&document(), &amounts(), &options("salvador_like"));
    assert!(s.contains("versao=\"salvador-like\""));
}

#[test]
fn documents_are_standardized_by_rules_and_removals() {
    let mut profile = ConversionProfile::default();
    profile.field_rules.serie = FieldRule { action: FieldAction::Zero, value: None };
    profile.field_rules.iss_retido = FieldRule { action: FieldAction::Constant, value: Some(" Sim ".into()) };
    profile.field_rules.observacao = FieldRule { action: FieldAction::Constant, value: Some("obs".into()) };
    let mut o = options("abrasf_v2");
    o.remove_codigo_verificacao = Some(true);
    o.remove_tomador_endereco = Some(true);
    o.remove_prestador_im = Some(true);
    o.remove_cnae = Some(true);
    o.remove_info_adicional = Some(true);
    let mut d = document();
    d.iss_retido = false;
    let r = standardize_document_for_xml(&d, Some(&profile), &o);
    assert_eq!(r.serie, "0");
    assert!(r.iss_retido);
    assert_eq!(r.discriminacao, "obs");
    assert_eq!(r.chave, "");
    assert_eq!(r.tomador.endereco, None);
    assert_eq!(r.tomador.nome, "Cliente & Filhos");
    assert_eq!(r.prestador.inscricao_municipal, None);
    assert_eq!(r.codigo_cnae, None);
    assert_eq!(r.info_adic, "");
    assert_eq!(r.numero, "123");
    let mut off = options("abrasf_v2");
    off.apply_profile_rules = Some(false);
    let kept = standardize_document_for_xml(&d, Some(&profile), &off);
    assert_eq!(kept.serie, " 1 ");
    assert!(!kept.iss_retido);
    let none = standardize_document_for_xml(&d, None, &options("abrasf_v2"));
    assert_eq!(none.discriminacao, "Serviço <teste>");
    assert_eq!(none.chave, "ABC");
}
