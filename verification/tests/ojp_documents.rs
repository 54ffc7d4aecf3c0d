use swiss_transport_mcp::api::ojp::station::parse_station_response;
use swiss_transport_mcp::api::ojp::tags::platform_from_stop_point_ref;
use swiss_transport_mcp::api::ojp::trip::parse_trip_response;
use swiss_transport_mcp::coordinate::Coordinate;

fn degrees(c: &Coordinate) -> f64 {
    c.as_str().parse::<f64>().expect("a coordinate is a number")
}

#[test]
fn parses_stop_call_platforms_from_nested_quay_text_and_stop_point_ref() {
    let xml = r#"
<OJP xmlns="http://www.vdv.de/ojp" xmlns:siri="http://www.siri.org.uk/siri" version="2.0">
  <OJPResponse>
    <siri:ServiceDelivery>
      <OJPTripDelivery>
        <TripResult>
          <Trip>
            <TripLeg>
              <TimedLeg>
                <Service>
                  <JourneyRef>trip-1</JourneyRef>
                  <Mode>bus</Mode>
                  <PublishedLineName>1</PublishedLineName>
                </Service>
                <LegBoard>
                  <StopPointRef>ojp:92001:A.</StopPointRef>
                  <StopPointName><Text>Kriens, Zentrum Pilatus</Text></StopPointName>
                  <PlannedQuay><Text>A</Text></PlannedQuay>
                  <ServiceDeparture>
                    <TimetabledTime>2026-04-27T10:57:00+02:00</TimetabledTime>
                    <EstimatedTime>2026-04-27T10:57:36+02:00</EstimatedTime>
                  </ServiceDeparture>
                </LegBoard>
                <LegAlight>
                  <StopPointRef>ojp:92002:B.</StopPointRef>
                  <StopPointName><Text>Luzern, Bahnhof</Text></StopPointName>
                  <ServiceArrival>
                    <TimetabledTime>2026-04-27T11:09:00+02:00</TimetabledTime>
                    <EstimatedTime>2026-04-27T11:09:30+02:00</EstimatedTime>
                  </ServiceArrival>
                </LegAlight>
              </TimedLeg>
            </TripLeg>
          </Trip>
        </TripResult>
      </OJPTripDelivery>
    </siri:ServiceDelivery>
  </OJPResponse>
</OJP>
"#;

    let trips = parse_trip_response(xml).expect("trip response should parse");
    assert_eq!(trips.len(), 1);
    assert_eq!(trips[0].legs.len(), 1);
    let leg = &trips[0].legs[0];

    assert_eq!(leg.from.platform.as_deref(), Some("A"));
    assert_eq!(leg.to.platform.as_deref(), Some("B"));
    assert_eq!(leg.stop_calls.len(), 2);
    assert_eq!(leg.stop_calls[0].platform.as_deref(), Some("A"));
    assert_eq!(leg.stop_calls[0].scheduled_platform.as_deref(), Some("A"));
    assert_eq!(leg.stop_calls[1].platform.as_deref(), Some("B"));
}

#[test]
fn enriches_trip_coordinates_from_trip_response_context_places() {
    let xml = r#"
<OJP xmlns="http://www.vdv.de/ojp" xmlns:siri="http://www.siri.org.uk/siri" version="2.0">
  <OJPResponse>
    <siri:ServiceDelivery>
      <OJPTripDelivery>
        <TripResponseContext>
          <Places>
            <Place>
              <StopPoint>
                <siri:StopPointRef>ch:1:sloid:5000:4:8</siri:StopPointRef>
                <StopPointName><Text>Luzern</Text></StopPointName>
              </StopPoint>
              <Name><Text>Luzern</Text></Name>
              <GeoPosition>
                <siri:Longitude>8.31051</siri:Longitude>
                <siri:Latitude>47.04851</siri:Latitude>
              </GeoPosition>
            </Place>
            <Place>
              <StopPoint>
                <siri:StopPointRef>ch:1:sloid:7000:4:7</siri:StopPointRef>
                <StopPointName><Text>Bern</Text></StopPointName>
              </StopPoint>
              <Name><Text>Bern</Text></Name>
              <GeoPosition>
                <siri:Longitude>7.43683</siri:Longitude>
                <siri:Latitude>46.94857</siri:Latitude>
              </GeoPosition>
            </Place>
          </Places>
        </TripResponseContext>
        <TripResult>
          <Trip>
            <TripLeg>
              <TimedLeg>
                <Service>
                  <JourneyRef>trip-2</JourneyRef>
                  <Mode>rail</Mode>
                  <PublishedLineName>IR15</PublishedLineName>
                </Service>
                <LegBoard>
                  <siri:StopPointRef>ch:1:sloid:5000:4:8</siri:StopPointRef>
                  <StopPointName><Text>Luzern</Text></StopPointName>
                  <ServiceDeparture>
                    <TimetabledTime>2026-04-27T14:00:00+02:00</TimetabledTime>
                    <EstimatedTime>2026-04-27T14:00:00+02:00</EstimatedTime>
                  </ServiceDeparture>
                </LegBoard>
                <LegAlight>
                  <siri:StopPointRef>ch:1:sloid:7000:4:7</siri:StopPointRef>
                  <StopPointName><Text>Bern</Text></StopPointName>
                  <ServiceArrival>
                    <TimetabledTime>2026-04-27T15:00:00+02:00</TimetabledTime>
                    <EstimatedTime>2026-04-27T15:00:00+02:00</EstimatedTime>
                  </ServiceArrival>
                </LegAlight>
              </TimedLeg>
            </TripLeg>
          </Trip>
        </TripResult>
      </OJPTripDelivery>
    </siri:ServiceDelivery>
  </OJPResponse>
</OJP>
"#;

    let trips = parse_trip_response(xml).expect("trip response should parse");
    assert_eq!(trips.len(), 1);
    let leg = &trips[0].legs[0];
    assert_eq!(
        leg.from.coordinates.as_ref().map(|c| degrees(&c.latitude)),
        Some(47.04851)
    );
    assert_eq!(
        leg.from.coordinates.as_ref().map(|c| degrees(&c.longitude)),
        Some(8.31051)
    );
    assert_eq!(
        leg.to.coordinates.as_ref().map(|c| degrees(&c.latitude)),
        Some(46.94857)
    );
    assert_eq!(
        leg.to.coordinates.as_ref().map(|c| degrees(&c.longitude)),
        Some(7.43683)
    );
    assert_eq!(
        leg.stop_calls[0].coordinates.as_ref().map(|c| degrees(&c.latitude)),
        Some(47.04851)
    );
    assert_eq!(
        leg.stop_calls[1].coordinates.as_ref().map(|c| degrees(&c.latitude)),
        Some(46.94857)
    );
}

#[test]
fn keeps_boarding_occupancy_when_intermediate_calls_differ() {
    let xml = r#"
<OJP xmlns="http://www.vdv.de/ojp" xmlns:siri="http://www.siri.org.uk/siri" version="2.0">
  <OJPResponse>
    <siri:ServiceDelivery>
      <OJPTripDelivery>
        <TripResult>
          <Trip>
            <TripLeg>
              <TimedLeg>
                <Service>
                  <JourneyRef>trip-3</JourneyRef>
                  <Mode>rail</Mode>
                  <PublishedLineName>IR75</PublishedLineName>
                </Service>
                <LegBoard>
                  <StopPointRef>ch:1:sloid:5000:4:9</StopPointRef>
                  <StopPointName><Text>Luzern</Text></StopPointName>
                  <ServiceDeparture>
                    <TimetabledTime>2026-04-28T07:35:00+02:00</TimetabledTime>
                    <EstimatedTime>2026-04-28T07:35:00+02:00</EstimatedTime>
                  </ServiceDeparture>
                  <siri:ExpectedDepartureOccupancy>
                    <siri:FareClass>firstClass</siri:FareClass>
                    <siri:OccupancyLevel>fewSeatsAvailable</siri:OccupancyLevel>
                  </siri:ExpectedDepartureOccupancy>
                  <siri:ExpectedDepartureOccupancy>
                    <siri:FareClass>secondClass</siri:FareClass>
                    <siri:OccupancyLevel>standingRoomOnly</siri:OccupancyLevel>
                  </siri:ExpectedDepartureOccupancy>
                </LegBoard>
                <LegIntermediate>
                  <StopPointRef>ch:1:sloid:7000:4:7</StopPointRef>
                  <StopPointName><Text>Bern</Text></StopPointName>
                  <ServiceArrival>
                    <TimetabledTime>2026-04-28T08:10:00+02:00</TimetabledTime>
                    <EstimatedTime>2026-04-28T08:10:00+02:00</EstimatedTime>
                  </ServiceArrival>
                  <ServiceDeparture>
                    <TimetabledTime>2026-04-28T08:11:00+02:00</TimetabledTime>
                    <EstimatedTime>2026-04-28T08:11:00+02:00</EstimatedTime>
                  </ServiceDeparture>
                  <siri:ExpectedDepartureOccupancy>
                    <siri:FareClass>firstClass</siri:FareClass>
                    <siri:OccupancyLevel>manySeatsAvailable</siri:OccupancyLevel>
                  </siri:ExpectedDepartureOccupancy>
                  <siri:ExpectedDepartureOccupancy>
                    <siri:FareClass>secondClass</siri:FareClass>
                    <siri:OccupancyLevel>manySeatsAvailable</siri:OccupancyLevel>
                  </siri:ExpectedDepartureOccupancy>
                </LegIntermediate>
                <LegAlight>
                  <StopPointRef>ch:1:sloid:8503000:4:1</StopPointRef>
                  <StopPointName><Text>Zürich HB</Text></StopPointName>
                  <ServiceArrival>
                    <TimetabledTime>2026-04-28T08:25:00+02:00</TimetabledTime>
                    <EstimatedTime>2026-04-28T08:25:00+02:00</EstimatedTime>
                  </ServiceArrival>
                </LegAlight>
              </TimedLeg>
            </TripLeg>
          </Trip>
        </TripResult>
      </OJPTripDelivery>
    </siri:ServiceDelivery>
  </OJPResponse>
</OJP>
"#;

    let trips = parse_trip_response(xml).expect("trip response should parse");
    assert_eq!(trips.len(), 1);
    let occupancy = trips[0].legs[0]
        .occupancy
        .as_ref()
        .expect("occupancy should be present");
    assert_eq!(occupancy.first_class.as_deref(), Some("high occupancy"));
    assert_eq!(
        occupancy.second_class.as_deref(),
        Some("very high occupancy")
    );
    assert_eq!(occupancy.general.as_deref(), Some("very high occupancy"));
}

#[test]
fn ignores_namespace_like_stop_point_ref_segments() {
    assert_eq!(platform_from_stop_point_ref("ch:1:sloid:8589725"), None);
    assert_eq!(
        platform_from_stop_point_ref("ojp:92001:A."),
        Some("A".to_string())
    );
}

#[test]
fn parses_station_coordinates_from_location_container_geo_position() {
    let xml = r#"
<OJP xmlns="http://www.vdv.de/ojp" xmlns:siri="http://www.siri.org.uk/siri" version="2.0">
  <OJPResponse>
    <siri:ServiceDelivery>
      <OJPLocationInformationDelivery>
        <Location>
          <Location>
            <StopPlace>
              <StopPlaceRef>8503000</StopPlaceRef>
              <StopPlaceName><Text>Zürich HB</Text></StopPlaceName>
            </StopPlace>
            <LocationName><Text>Zürich HB</Text></LocationName>
            <GeoPosition>
              <siri:Longitude>8.540192</siri:Longitude>
              <siri:Latitude>47.378177</siri:Latitude>
            </GeoPosition>
          </Location>
        </Location>
      </OJPLocationInformationDelivery>
    </siri:ServiceDelivery>
  </OJPResponse>
</OJP>
"#;

    let stations = parse_station_response(xml, 5).expect("station response should parse");
    assert_eq!(stations.len(), 1);
    assert_eq!(stations[0].id, "8503000");
    assert_eq!(stations[0].name, "Zürich HB");
    assert_eq!(stations[0].longitude.as_ref().map(degrees), Some(8.540192));
    assert_eq!(stations[0].latitude.as_ref().map(degrees), Some(47.378177));
}

#[test]
fn parses_station_coordinates_from_single_location_container() {
    let xml = r#"
<OJP xmlns="http://www.vdv.de/ojp" xmlns:siri="http://www.siri.org.uk/siri" version="2.0">
  <OJPResponse>
    <siri:ServiceDelivery>
      <OJPLocationInformationDelivery>
        <Location>
          <StopPlace>
            <StopPlaceRef>8505000</StopPlaceRef>
            <StopPlaceName><Text>Zug</Text></StopPlaceName>
          </StopPlace>
          <LocationName><Text>Zug</Text></LocationName>
          <GeoPosition>
            <siri:Longitude>8.515494</siri:Longitude>
            <siri:Latitude>47.177770</siri:Latitude>
          </GeoPosition>
        </Location>
      </OJPLocationInformationDelivery>
    </siri:ServiceDelivery>
  </OJPResponse>
</OJP>
"#;

    let stations = parse_station_response(xml, 5).expect("station response should parse");
    assert_eq!(stations.len(), 1);
    assert_eq!(stations[0].id, "8505000");
    assert_eq!(stations[0].name, "Zug");
    assert_eq!(stations[0].longitude.as_ref().map(degrees), Some(8.515494));
    assert_eq!(stations[0].latitude.as_ref().map(degrees), Some(47.17777));
}
